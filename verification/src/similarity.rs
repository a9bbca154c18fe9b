//! How alike two texts are, and the detection of a model that repeats itself.

use crate::string_set::StringSet;
use crate::text::{alphanumeric, is_alphanumeric, is_space, is_whitespace, lowercase};
use crate::text::{same, slice_text, texts, to_chars, to_lowercase};
use vstd::multiset::Multiset;
use vstd::prelude::*;

verus! {

/// A share between nothing (0) and everything (1): `num` parts of `den`.
#[derive(Clone, Copy, Debug, PartialEq, Eq)]
pub struct Ratio {
    pub num: usize,
    pub den: usize,
}

impl Ratio {
    /// Whether this is a share: a positive number of parts, of which no more are counted.
    pub open spec fn is_share(self) -> bool {
        self.den > 0 && self.num <= self.den
    }

    /// Whether this share is at least the other.
    pub open spec fn at_least(self, other: Ratio) -> bool {
        self.num * other.den >= other.num * self.den
    }

    /// Whether this share is at least the other.
    pub fn reaches(&self, other: Ratio) -> (r: bool)
        ensures
            r == self.at_least(other),
    {
        assert(self.num * other.den <= usize::MAX * usize::MAX) by (nonlinear_arith)
            requires
                self.num <= usize::MAX,
                other.den <= usize::MAX,
                self.num >= 0,
                other.den >= 0,
        ;
        assert(other.num * self.den <= usize::MAX * usize::MAX) by (nonlinear_arith)
            requires
                other.num <= usize::MAX,
                self.den <= usize::MAX,
                other.num >= 0,
                self.den >= 0,
        ;
        assert(usize::MAX * usize::MAX <= u128::MAX) by (nonlinear_arith)
            requires
                usize::MAX <= u64::MAX,
        ;
        assert(self.num * other.den >= 0 && other.num * self.den >= 0) by (nonlinear_arith)
            requires
                self.num >= 0,
                other.den >= 0,
                other.num >= 0,
                self.den >= 0,
        ;
        let a: u128 = self.num as u128 * other.den as u128;
        let b: u128 = other.num as u128 * self.den as u128;
        a >= b
    }
}

/// The adjacent pairs of characters.
pub open spec fn pairs(s: Seq<char>) -> Seq<(char, char)> {
    Seq::new(
        if s.len() > 0 {
            (s.len() - 1) as nat
        } else {
            0
        },
        |i: int| (s[i], s[i + 1]),
    )
}

/// The Dice coefficient of two texts over their adjacent pairs of characters, as a
/// numerator and a denominator.
pub open spec fn dice(a: Seq<char>, b: Seq<char>) -> (int, int) {
    if a.len() == 0 && b.len() == 0 {
        (1, 1)
    } else if a.len() == 0 || b.len() == 0 {
        (0, 1)
    } else if a.len() == 1 && b.len() == 1 {
        if a == b {
            (1, 1)
        } else {
            (0, 1)
        }
    } else {
        (
            2 * pairs(a).to_multiset().intersection_with(pairs(b).to_multiset()).len() as int,
            (pairs(a).len() + pairs(b).len()) as int,
        )
    }
}

/// The adjacent pairs of characters.
fn count_bigrams(v: &Vec<char>) -> (r: Vec<(char, char)>)
    ensures
        r@ == pairs(v@),
{
    let mut out: Vec<(char, char)> = Vec::new();
    let n: usize = v.len();
    let mut i: usize = 0;
    while i + 1 < n
        invariant
            n == v@.len(),
            n == 0 ==> i == 0,
            n > 0 ==> i < n,
            out@.len() == i,
            forall|j: int| 0 <= j < i ==> out@[j] == (v@[j], v@[j + 1]),
        decreases n - i,
    {
        out.push((v[i], v[i + 1]));
        i = i + 1;
    }
    assert(out@ =~= pairs(v@));
    out
}

/// The place of a pair.
fn find_pair(v: &Vec<(char, char)>, p: (char, char)) -> (r: Option<usize>)
    ensures
        match r {
            Some(i) => i < v@.len() && v@[i as int] == p,
            None => !v@.contains(p),
        },
{
    let mut i: usize = 0;
    while i < v.len()
        invariant
            i <= v@.len(),
            forall|j: int| 0 <= j < i ==> v@[j] != p,
        decreases v.len() - i,
    {
        if v[i].0 == p.0 && v[i].1 == p.1 {
            return Some(i);
        }
        i = i + 1;
    }
    None
}

proof fn lemma_common_step(
    a: Multiset<(char, char)>,
    b: Multiset<(char, char)>,
    x: (char, char),
)
    requires
        a.count(x) > 0,
    ensures
        b.count(x) > 0 ==> a.intersection_with(b).len() == a.remove(x).intersection_with(
            b.remove(x),
        ).len() + 1,
        b.count(x) == 0 ==> a.intersection_with(b) == a.remove(x).intersection_with(b),
{
    broadcast use vstd::multiset::group_multiset_properties;

    if b.count(x) > 0 {
        let small = a.remove(x).intersection_with(b.remove(x));
        assert(a.intersection_with(b) =~= small.insert(x));
    } else {
        assert(a.intersection_with(b) =~= a.remove(x).intersection_with(b));
    }
}

/// How many pairs the two have in common.
fn count_common(a: &Vec<(char, char)>, b: Vec<(char, char)>) -> (r: usize)
    ensures
        r == a@.to_multiset().intersection_with(b@.to_multiset()).len(),
        r <= a@.len(),
        r <= b@.len(),
{
    broadcast use {vstd::multiset::group_multiset_properties, vstd::seq_lib::group_to_multiset_ensures};

    let ghost all = a@.to_multiset().intersection_with(b@.to_multiset()).len();
    let ghost blen = b@.len();
    let mut rest = b;
    let mut count: usize = 0;
    let mut i: usize = 0;
    assert(a@.skip(0) =~= a@);
    while i < a.len()
        invariant
            i <= a@.len(),
            count <= i,
            count + rest@.len() == blen,
            all == count + a@.skip(i as int).to_multiset().intersection_with(
                rest@.to_multiset(),
            ).len(),
        decreases a.len() - i,
    {
        let x = a[i];
        let ghost tail = a@.skip(i as int);
        let ghost before = rest@;
        proof {
            assert(tail[0] == x);
            assert(tail.drop_first() =~= a@.skip(i + 1));
            assert(tail =~= seq![x] + a@.skip(i + 1));
            vstd::seq_lib::to_multiset_remove(tail, 0);
            assert(tail.remove(0) =~= a@.skip(i + 1));
            assert(tail.contains(x));
            tail.to_multiset_ensures();
            before.to_multiset_ensures();
            lemma_common_step(tail.to_multiset(), before.to_multiset(), x);
        }
        match find_pair(&rest, x) {
            Some(p) => {
                proof {
                    vstd::seq_lib::to_multiset_remove(before, p as int);
                    assert(before.contains(x));
                }
                rest.remove(p);
                assert(rest@ =~= before.remove(p as int));
                count = count + 1;
            },
            None => {},
        }
        i = i + 1;
    }
    proof {
        assert(a@.skip(i as int) =~= Seq::empty());
        let none = a@.skip(i as int).to_multiset();
        a@.skip(i as int).to_multiset_ensures();
        assert(none.len() == 0);
        assert(none =~= Multiset::empty());
        assert(none.intersection_with(rest@.to_multiset()) =~= Multiset::empty());
    }
    count
}

/// How alike two texts are, from 0 to 1: twice the adjacent pairs of characters that they
/// have in common, over the pairs of both.
pub fn similarity(a: &str, b: &str) -> (r: Ratio)
    requires
        2 * a@.len() <= usize::MAX,
        a@.len() + b@.len() <= usize::MAX,
    ensures
        (r.num as int, r.den as int) == dice(a@, b@),
        r.is_share(),
{
    let va = to_chars(a);
    let vb = to_chars(b);
    if va.len() == 0 && vb.len() == 0 {
        return Ratio { num: 1, den: 1 };
    }
    if va.len() == 0 || vb.len() == 0 {
        return Ratio { num: 0, den: 1 };
    }
    let pa = count_bigrams(&va);
    let pb = count_bigrams(&vb);
    let total: usize = pa.len() + pb.len();
    if total == 0 {
        return if same(a, b) {
            Ratio { num: 1, den: 1 }
        } else {
            Ratio { num: 0, den: 1 }
        };
    }
    let common: usize = count_common(&pa, pb);
    Ratio { num: 2 * common, den: total }
}

/// The end of the word that starts at `i`.
pub open spec fn word_end(s: Seq<char>, i: int) -> int
    decreases s.len() - i,
{
    if i < 0 || i >= s.len() || is_space(s[i]) {
        i
    } else {
        word_end(s, i + 1)
    }
}

/// A word ends within the text, and not before it starts.
pub proof fn lemma_word_end(s: Seq<char>, i: int)
    requires
        0 <= i <= s.len(),
    ensures
        i <= word_end(s, i) <= s.len(),
    decreases s.len() - i,
{
    if i < s.len() && !is_space(s[i]) {
        lemma_word_end(s, i + 1);
    }
}

/// The words from `i` on: the runs of characters that are no white space.
pub open spec fn words_from(s: Seq<char>, i: int) -> Seq<Seq<char>>
    decreases s.len() - i,
{
    if i < 0 || i >= s.len() {
        Seq::empty()
    } else if is_space(s[i]) {
        words_from(s, i + 1)
    } else {
        proof {
            lemma_word_end(s, i + 1);
        }
        seq![s.subrange(i, word_end(s, i + 1))] + words_from(s, word_end(s, i + 1))
    }
}

/// The text without what is no letter or digit at its start.
pub open spec fn strip_start(s: Seq<char>) -> Seq<char>
    decreases s.len(),
{
    if s.len() > 0 && !alphanumeric(s[0]) {
        strip_start(s.drop_first())
    } else {
        s
    }
}

/// The text without what is no letter or digit at its end.
pub open spec fn strip_end(s: Seq<char>) -> Seq<char>
    decreases s.len(),
{
    if s.len() > 0 && !alphanumeric(s.last()) {
        strip_end(s.drop_last())
    } else {
        s
    }
}

/// The word as it is compared: without what surrounds it, in lowercase.
pub open spec fn word_key(w: Seq<char>) -> Seq<char> {
    lowercase(strip_end(strip_start(w)))
}

/// The words of more than three characters, as they are compared.
pub open spec fn key_words(ws: Seq<Seq<char>>, n: int) -> Set<Seq<char>>
    decreases n,
{
    if n <= 0 {
        Set::empty()
    } else if word_key(ws[n - 1]).len() > 3 {
        key_words(ws, n - 1).insert(word_key(ws[n - 1]))
    } else {
        key_words(ws, n - 1)
    }
}

/// The significant words of a text.
pub open spec fn significant(s: Seq<char>) -> Set<Seq<char>> {
    let ws = words_from(s, 0);
    key_words(ws, ws.len() as int)
}

proof fn lemma_word_count(s: Seq<char>, i: int)
    requires
        0 <= i <= s.len(),
    ensures
        words_from(s, i).len() <= s.len() - i,
    decreases s.len() - i,
{
    if i < s.len() {
        if is_space(s[i]) {
            lemma_word_count(s, i + 1);
        } else {
            lemma_word_end(s, i + 1);
            lemma_word_count(s, word_end(s, i + 1));
        }
    }
}

proof fn lemma_key_word_count(ws: Seq<Seq<char>>, n: int)
    requires
        0 <= n,
    ensures
        key_words(ws, n).finite(),
        key_words(ws, n).len() <= n,
    decreases n,
{
    if n > 0 {
        lemma_key_word_count(ws, n - 1);
    }
}

/// A text has no more significant words than characters.
proof fn lemma_few_words(s: Seq<char>)
    ensures
        significant(s).finite(),
        significant(s).len() <= s.len(),
{
    lemma_word_count(s, 0);
    lemma_key_word_count(words_from(s, 0), words_from(s, 0).len() as int);
}

/// The Jaccard coefficient of two texts over their significant words, as a numerator and a
/// denominator.
pub open spec fn jaccard(a: Set<Seq<char>>, b: Set<Seq<char>>) -> (int, int) {
    if a == Set::<Seq<char>>::empty() && b == Set::<Seq<char>>::empty() {
        (1, 1)
    } else if a == Set::<Seq<char>>::empty() || b == Set::<Seq<char>>::empty() {
        (0, 1)
    } else {
        (a.intersect(b).len() as int, a.union(b).len() as int)
    }
}

/// The words of a text: the runs of characters that are no white space.
pub fn split_whitespace(s: &str) -> (r: Vec<String>)
    ensures
        texts(r@) == words_from(s@, 0),
{
    let v = to_chars(s);
    let mut out: Vec<String> = Vec::new();
    let mut i: usize = 0;
    assert(texts(out@) =~= Seq::empty());
    assert(texts(out@) + words_from(v@, 0) =~= words_from(v@, 0));
    while i < v.len()
        invariant
            i <= v@.len(),
            v@ == s@,
            texts(out@) + words_from(v@, i as int) == words_from(v@, 0),
        decreases v.len() - i,
    {
        if is_whitespace(v[i]) {
            i = i + 1;
        } else {
            let mut j: usize = i + 1;
            while j < v.len() && !is_whitespace(v[j])
                invariant
                    i < j <= v@.len(),
                    word_end(v@, i + 1) == word_end(v@, j as int),
                decreases v.len() - j,
            {
                j = j + 1;
            }
            let ghost before = texts(out@);
            out.push(slice_text(&v, i, j));
            assert(texts(out@) =~= before.push(v@.subrange(i as int, j as int)));
            assert(texts(out@) + words_from(v@, j as int) =~= before + words_from(v@, i as int));
            i = j;
        }
    }
    assert(texts(out@) + Seq::<Seq<char>>::empty() =~= texts(out@));
    out
}

/// The word as it is compared.
fn compared_word(w: &str) -> (r: String)
    ensures
        r@ == word_key(w@),
{
    let v = to_chars(w);
    let mut a: usize = 0;
    assert(v@.skip(0) =~= v@);
    while a < v.len() && !is_alphanumeric(v[a])
        invariant
            a <= v@.len(),
            strip_start(v@.skip(a as int)) == strip_start(v@),
        decreases v.len() - a,
    {
        assert(v@.skip(a as int).drop_first() =~= v@.skip(a + 1));
        a = a + 1;
    }
    assert(strip_start(v@) == v@.skip(a as int));
    let mut b: usize = v.len();
    assert(v@.subrange(a as int, b as int) =~= v@.skip(a as int));
    while b > a && !is_alphanumeric(v[b - 1])
        invariant
            a <= b <= v@.len(),
            strip_end(v@.subrange(a as int, b as int)) == strip_end(v@.skip(a as int)),
        decreases b,
    {
        assert(v@.subrange(a as int, b as int).drop_last() =~= v@.subrange(a as int, b - 1));
        b = b - 1;
    }
    to_lowercase(slice_text(&v, a, b).as_str())
}

/// The significant words of a text: those of more than three characters, without what
/// surrounds them and in lowercase.
pub fn significant_words(s: &str) -> (r: StringSet)
    ensures
        r@ == significant(s@),
{
    let ws = split_whitespace(s);
    let ghost wv = words_from(s@, 0);
    let mut out = StringSet::new();
    let mut i: usize = 0;
    while i < ws.len()
        invariant
            i <= ws@.len(),
            wv == texts(ws@),
            out@ == key_words(wv, i as int),
        decreases ws.len() - i,
    {
        assert(wv[i as int] == ws@[i as int]@);
        let w = compared_word(ws[i].as_str());
        if to_chars(w.as_str()).len() > 3 {
            out.insert(w.as_str());
        }
        i = i + 1;
    }
    out
}

/// How many strings the two sets have in common.
fn count_shared(a: &StringSet, b: &StringSet) -> (r: usize)
    ensures
        a@.finite(),
        r == a@.intersect(b@).len(),
        r <= a@.len(),
{
    let items = a.items();
    let ghost iv = texts(items@);
    let mut count: usize = 0;
    let mut i: usize = 0;
    assert(iv.take(0).to_set().intersect(b@) =~= Set::empty());
    while i < items.len()
        invariant
            i <= items@.len(),
            iv == texts(items@),
            iv.no_duplicates(),
            count <= i,
            iv.take(i as int).to_set().intersect(b@).finite(),
            count == iv.take(i as int).to_set().intersect(b@).len(),
        decreases items.len() - i,
    {
        let ghost x = iv[i as int];
        let ghost before = iv.take(i as int).to_set().intersect(b@);
        let ghost after = iv.take(i + 1).to_set().intersect(b@);
        proof {
            assert(items@[i as int]@ == x);
            assert(iv.take(i + 1) =~= iv.take(i as int).push(x));
            assert(!before.contains(x));
            assert forall|y: Seq<char>| iv.take(i + 1).to_set().contains(y) == (iv.take(
                i as int,
            ).to_set().contains(y) || y == x) by {
                if iv.take(i as int).contains(y) {
                    let k = choose|k: int| 0 <= k < i && iv.take(i as int)[k] == y;
                    assert(iv.take(i + 1)[k] == y);
                }
                if y == x {
                    assert(iv.take(i + 1)[i as int] == y);
                }
            }
            if b@.contains(x) {
                assert(after =~= before.insert(x));
            } else {
                assert(after =~= before);
            }
        }
        if b.contains(items[i].as_str()) {
            count = count + 1;
        }
        i = i + 1;
    }
    proof {
        assert(iv.take(i as int) =~= iv);
        iv.unique_seq_to_set();
    }
    count
}

/// How alike two texts are, from 0 to 1, by their significant words: those of both over
/// those of either. It catches a text that says the same in other words.
pub fn keyword_similarity(a: &str, b: &str) -> (r: Ratio)
    requires
        a@.len() + b@.len() <= usize::MAX,
    ensures
        (r.num as int, r.den as int) == jaccard(significant(a@), significant(b@)),
        r.is_share(),
{
    let wa = significant_words(a);
    let wb = significant_words(b);
    if wa.is_empty() && wb.is_empty() {
        return Ratio { num: 1, den: 1 };
    }
    if wa.is_empty() || wb.is_empty() {
        return Ratio { num: 0, den: 1 };
    }
    let shared: usize = count_shared(&wa, &wb);
    let la: usize = wa.len();
    let lb: usize = wb.len();
    proof {
        lemma_few_words(a@);
        lemma_few_words(b@);
        vstd::set_lib::lemma_set_intersect_union_lens(wa@, wb@);
        vstd::set_lib::lemma_len_intersect(wb@, wa@);
        assert(wa@.intersect(wb@) =~= wb@.intersect(wa@));
        if la == 0 {
            wa@.lemma_len0_is_empty();
        }
    }
    Ratio { num: shared, den: la + lb - shared }
}

} // verus!
