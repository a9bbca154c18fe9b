//! Order among texts, and stable sorting by a text.

use crate::text::{texts, to_chars};
use vstd::prelude::*;

verus! {

/// Whether `a` does not come after `b` in the order of strings.
pub open spec fn text_le(a: Seq<char>, b: Seq<char>) -> bool
    decreases a.len(),
{
    a.len() == 0 || (b.len() > 0 && (a[0] < b[0] || (a[0] == b[0] && text_le(
        a.drop_first(),
        b.drop_first(),
    ))))
}

/// Of two texts one does not come after the other.
pub proof fn lemma_text_le_total(a: Seq<char>, b: Seq<char>)
    ensures
        text_le(a, b) || text_le(b, a),
        text_le(a, a),
    decreases a.len(),
{
    if a.len() > 0 {
        lemma_text_le_total(a.drop_first(), a.drop_first());
        if b.len() > 0 {
            lemma_text_le_total(a.drop_first(), b.drop_first());
        }
    }
}

/// The order carries on from one text over the next to a third.
pub proof fn lemma_text_le_transitive(a: Seq<char>, b: Seq<char>, c: Seq<char>)
    requires
        text_le(a, b),
        text_le(b, c),
    ensures
        text_le(a, c),
    decreases a.len(),
{
    if a.len() > 0 && a[0] == b[0] && b[0] == c[0] {
        lemma_text_le_transitive(a.drop_first(), b.drop_first(), c.drop_first());
    }
}

/// Texts neither of which comes after the other are the same.
pub proof fn lemma_text_le_antisymmetric(a: Seq<char>, b: Seq<char>)
    requires
        text_le(a, b),
        text_le(b, a),
    ensures
        a == b,
    decreases a.len(),
{
    if a.len() > 0 {
        lemma_text_le_antisymmetric(a.drop_first(), b.drop_first());
        assert(a =~= seq![a[0]] + a.drop_first());
        assert(b =~= seq![b[0]] + b.drop_first());
    } else {
        assert(a =~= b);
    }
}

/// Whether `a` does not come after `b`.
pub fn not_after(a: &str, b: &str) -> (r: bool)
    ensures
        r == text_le(a@, b@),
{
    let va = to_chars(a);
    let vb = to_chars(b);
    let mut i: usize = 0;
    assert(va@.skip(0) =~= va@);
    assert(vb@.skip(0) =~= vb@);
    while i < va.len()
        invariant
            i <= va@.len(),
            i <= vb@.len(),
            va@ == a@,
            vb@ == b@,
            text_le(va@, vb@) == text_le(va@.skip(i as int), vb@.skip(i as int)),
        decreases va.len() - i,
    {
        if i >= vb.len() {
            return false;
        }
        let x = va[i];
        let y = vb[i];
        assert(va@.skip(i as int).drop_first() =~= va@.skip(i + 1));
        assert(vb@.skip(i as int).drop_first() =~= vb@.skip(i + 1));
        if x < y {
            return true;
        }
        if x > y {
            return false;
        }
        i = i + 1;
    }
    true
}

/// The first position, from `i` on, of an element that comes after `k`.
pub open spec fn place<T>(s: Seq<T>, k: Seq<char>, key: spec_fn(T) -> Seq<char>, i: int) -> int
    decreases s.len() - i,
{
    if i >= s.len() {
        i
    } else if text_le(key(s[i]), k) {
        place(s, k, key, i + 1)
    } else {
        i
    }
}

/// The first `n` elements in the order of their keys; elements with the same key keep their
/// order.
pub open spec fn sorted_by<T>(s: Seq<T>, key: spec_fn(T) -> Seq<char>, n: int) -> Seq<T>
    decreases n,
{
    if n <= 0 {
        Seq::empty()
    } else {
        let t = sorted_by(s, key, n - 1);
        t.insert(place(t, key(s[n - 1]), key, 0), s[n - 1])
    }
}

/// Whether the keys do not go down.
pub open spec fn in_order<T>(s: Seq<T>, key: spec_fn(T) -> Seq<char>) -> bool {
    forall|i: int, j: int|
        0 <= i < j < s.len() ==> text_le(key(#[trigger] s[i]), key(#[trigger] s[j]))
}

/// The place is one where the element fits.
pub proof fn lemma_place<T>(s: Seq<T>, k: Seq<char>, key: spec_fn(T) -> Seq<char>, i: int)
    requires
        0 <= i <= s.len(),
    ensures
        i <= place(s, k, key, i) <= s.len(),
        forall|j: int| i <= j < place(s, k, key, i) ==> text_le(key(#[trigger] s[j]), k),
        place(s, k, key, i) < s.len() ==> !text_le(key(s[place(s, k, key, i)]), k),
    decreases s.len() - i,
{
    if i < s.len() && text_le(key(s[i]), k) {
        lemma_place(s, k, key, i + 1);
    }
}

proof fn lemma_insert_in_order<T>(s: Seq<T>, x: T, key: spec_fn(T) -> Seq<char>)
    requires
        in_order(s, key),
    ensures
        in_order(s.insert(place(s, key(x), key, 0), x), key),
{
    let p = place(s, key(x), key, 0);
    lemma_place(s, key(x), key, 0);
    let t = s.insert(p, x);
    assert forall|i: int, j: int| 0 <= i < j < t.len() implies text_le(
        key(#[trigger] t[i]),
        key(#[trigger] t[j]),
    ) by {
        let a = if i < p {
            s[i]
        } else if i == p {
            x
        } else {
            s[i - 1]
        };
        let b = if j < p {
            s[j]
        } else if j == p {
            x
        } else {
            s[j - 1]
        };
        assert(t[i] == a && t[j] == b);
        if i == p {
            lemma_text_le_total(key(x), key(s[p]));
            if j - 1 > p {
                lemma_text_le_transitive(key(x), key(s[p]), key(s[j - 1]));
            }
        } else if j == p {
        } else if i < p && j > p {
            assert(text_le(key(s[i]), key(s[j - 1])));
        }
    }
}

/// Sorting puts the elements in order, and neither adds nor drops any.
pub proof fn lemma_sorted_by<T>(s: Seq<T>, key: spec_fn(T) -> Seq<char>, n: int)
    requires
        0 <= n <= s.len(),
    ensures
        in_order(sorted_by(s, key, n), key),
        sorted_by(s, key, n).to_multiset() == s.take(n).to_multiset(),
        sorted_by(s, key, n).len() == n,
    decreases n,
{
    if n > 0 {
        lemma_sorted_by(s, key, n - 1);
        let t = sorted_by(s, key, n - 1);
        let x = s[n - 1];
        lemma_place(t, key(x), key, 0);
        lemma_insert_in_order(t, x, key);
        vstd::seq_lib::to_multiset_insert(t, place(t, key(x), key, 0), x);
        assert(s.take(n) =~= s.take(n - 1).push(x));
        s.take(n - 1).to_multiset_ensures();
    } else {
        assert(s.take(0) =~= Seq::empty());
    }
}

/// A text as its own key.
pub open spec fn itself() -> spec_fn(Seq<char>) -> Seq<char> {
    |s: Seq<char>| s
}

/// The texts in order.
pub open spec fn sorted_texts(s: Seq<Seq<char>>) -> Seq<Seq<char>> {
    sorted_by(s, itself(), s.len() as int)
}

/// The texts in order.
pub fn sort_strings(v: &Vec<String>) -> (r: Vec<String>)
    ensures
        texts(r@) == sorted_texts(texts(v@)),
{
    let mut out: Vec<String> = Vec::new();
    let ghost tv = texts(v@);
    let mut n: usize = 0;
    assert(texts(out@) =~= Seq::empty());
    while n < v.len()
        invariant
            n <= v@.len(),
            tv == texts(v@),
            texts(out@) == sorted_by(tv, itself(), n as int),
        decreases v.len() - n,
    {
        let ghost k = tv[n as int];
        let ghost before = texts(out@);
        assert(k == v@[n as int]@);
        let mut i: usize = 0;
        while i < out.len() && not_after(out[i].as_str(), v[n].as_str())
            invariant
                i <= out@.len(),
                n < v@.len(),
                k == v@[n as int]@,
                before == texts(out@),
                place(before, k, itself(), 0) == place(before, k, itself(), i as int),
            decreases out.len() - i,
        {
            assert(before[i as int] == out@[i as int]@);
            i = i + 1;
        }
        proof {
            if i < out@.len() {
                assert(before[i as int] == out@[i as int]@);
            }
            assert(place(before, k, itself(), 0) == i);
        }
        out.insert(i, v[n].clone());
        assert(texts(out@) =~= before.insert(i as int, k));
        n = n + 1;
    }
    out
}

} // verus!
