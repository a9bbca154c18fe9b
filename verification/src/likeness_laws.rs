//! When two texts are alike, when a stream goes in circles, and which day it is.

use crate::calendar::{day_number, utc_text, valid_date};
use crate::calendar::{lemma_date_of, Date};
use crate::loop_detector::{DetectorV, LoopReason};
use crate::similarity::{
    dice, jaccard, key_words, lemma_word_end, pairs, significant, strip_end, strip_start, word_end,
    word_key, words_from,
};
use crate::text::{alphanumeric, dec, is_space, lowercase, zero_pad};
use vstd::multiset::Multiset;
use vstd::prelude::*;

verus! {

// ---- letters

/// The pairs of a text are its neighbouring characters, in their order.
pub proof fn lemma_pairs(s: Seq<char>, i: int)
    ensures
        s.len() > 0 ==> pairs(s).len() == s.len() - 1,
        s.len() == 0 ==> pairs(s).len() == 0,
        0 <= i < s.len() - 1 ==> pairs(s)[i].0 == s[i] && pairs(s)[i].1 == s[i + 1],
{
}

/// Likeness by letters goes both ways, a text is wholly like itself, and texts without a common
/// pair are not alike at all.
pub proof fn lemma_letters(a: Seq<char>, b: Seq<char>)
    ensures
        dice(a, b) == dice(b, a),
        dice(a, a).0 == dice(a, a).1 && dice(a, a).1 > 0,
        (a.len() > 1 || b.len() > 1) && (forall|i: int, j: int|
            0 <= i < pairs(a).len() && 0 <= j < pairs(b).len() ==> #[trigger] pairs(a)[i]
                != #[trigger] pairs(b)[j]) ==> dice(a, b).0 == 0,
{
    broadcast use vstd::multiset::group_multiset_properties;

    let (p, q) = (pairs(a).to_multiset(), pairs(b).to_multiset());
    assert(p.intersection_with(q) =~= q.intersection_with(p));
    assert(p.intersection_with(p) =~= p);
    pairs(a).to_multiset_ensures();
    pairs(b).to_multiset_ensures();
    if forall|i: int, j: int|
        0 <= i < pairs(a).len() && 0 <= j < pairs(b).len() ==> #[trigger] pairs(a)[i]
            != #[trigger] pairs(b)[j] {
        assert(p.intersection_with(q) =~= Multiset::empty()) by {
            assert forall|x: (char, char)| p.intersection_with(q).count(x) == 0 by {
                if p.count(x) > 0 && q.count(x) > 0 {
                    assert(pairs(a).contains(x));
                    assert(pairs(b).contains(x));
                    let i = choose|i: int| 0 <= i < pairs(a).len() && pairs(a)[i] == x;
                    let j = choose|j: int| 0 <= j < pairs(b).len() && pairs(b)[j] == x;
                    assert(pairs(a)[i] != pairs(b)[j]);
                }
            }
        }
    }
}

/// Texts that hold the same pairs, however they are put together, count each pair as often as
/// both have it.
pub proof fn lemma_common_pairs(a: Seq<char>, b: Seq<char>)
    requires
        a.len() > 1,
        b.len() > 1,
    ensures
        dice(a, b).1 == a.len() + b.len() - 2,
        pairs(a).to_multiset().subset_of(pairs(b).to_multiset()) ==> dice(a, b).0 == 2 * (a.len()
            - 1),
{
    broadcast use vstd::multiset::group_multiset_properties;

    let (p, q) = (pairs(a).to_multiset(), pairs(b).to_multiset());
    pairs(a).to_multiset_ensures();
    if p.subset_of(q) {
        assert(p.intersection_with(q) =~= p);
    }
}

// ---- words

proof fn lemma_word_end_is(s: Seq<char>, i: int, e: int)
    requires
        0 <= i <= e <= s.len(),
        forall|k: int| i <= k < e ==> !is_space(#[trigger] s[k]),
        e < s.len() ==> is_space(s[e]),
    ensures
        word_end(s, i) == e,
    decreases e - i,
{
    if i < e {
        lemma_word_end_is(s, i + 1, e);
    }
}

proof fn lemma_word_end_in_rest(s: Seq<char>, d: int, i: int)
    requires
        0 <= d <= s.len(),
        0 <= i <= s.len() - d,
    ensures
        word_end(s, d + i) == d + word_end(s.skip(d), i),
    decreases s.len() - d - i,
{
    let t = s.skip(d);
    if i < t.len() && !is_space(t[i]) {
        lemma_word_end_in_rest(s, d, i + 1);
    }
}

proof fn lemma_words_in_rest(s: Seq<char>, d: int, i: int)
    requires
        0 <= d <= s.len(),
        0 <= i,
    ensures
        words_from(s, d + i) == words_from(s.skip(d), i),
    decreases s.len() - d - i,
{
    let t = s.skip(d);
    if i < t.len() {
        assert(t[i] == s[d + i]);
        if is_space(t[i]) {
            lemma_words_in_rest(s, d, i + 1);
        } else {
            lemma_word_end_in_rest(s, d, i + 1);
            lemma_word_end(t, i + 1);
            let e = word_end(t, i + 1);
            lemma_words_in_rest(s, d, e);
            assert(s.subrange(d + i, d + e) =~= t.subrange(i, e));
        }
    }
}

/// White space before a text adds no word; what stands up to the next white space is a word; a
/// text of nothing has none.
pub proof fn lemma_words(c: char, w: Seq<char>, rest: Seq<char>)
    requires
        is_space(c),
        w.len() > 0,
        forall|i: int| 0 <= i < w.len() ==> !is_space(#[trigger] w[i]),
    ensures
        words_from(Seq::empty(), 0).len() == 0,
        words_from(seq![c] + rest, 0) == words_from(rest, 0),
        words_from(w, 0) == seq![w],
        words_from(w + seq![c] + rest, 0) == seq![w] + words_from(rest, 0),
{
    let s = seq![c] + rest;
    assert(s.skip(1) =~= rest);
    lemma_words_in_rest(s, 1, 0);
    assert(s[0] == c);
    let n = w.len() as int;
    lemma_word_end_is(w, 1, n);
    assert(w.subrange(0, n) =~= w);
    assert(words_from(w, n).len() == 0);
    assert(words_from(w, 0) =~= seq![w]);
    let t = w + seq![c] + rest;
    assert forall|k: int| 1 <= k < n implies !is_space(#[trigger] t[k]) by {
        assert(t[k] == w[k]);
    }
    assert(t[n] == c);
    lemma_word_end_is(t, 1, n);
    assert(t[0] == w[0]);
    assert(t.subrange(0, n) =~= w);
    assert(t.skip(n) =~= s);
    lemma_words_in_rest(t, n, 0);
    assert(words_from(t, 0) =~= seq![w] + words_from(rest, 0));
}

/// A word is compared without what surrounds its letters and digits, in lowercase.
pub proof fn lemma_word_key(w: Seq<char>)
    ensures
        exists|a: int, b: int|
            0 <= a <= b <= w.len() && word_key(w) == lowercase(#[trigger] w.subrange(a, b)) && (
            forall|i: int|
                0 <= i < w.len() && (i < a || b <= i) ==> !alphanumeric(#[trigger] w[i])) && (a < b
                ==> alphanumeric(w[a]) && alphanumeric(w[b - 1])),
{
    let a = lemma_stripped_start(w);
    let t = w.skip(a);
    let b = lemma_stripped_end(t);
    assert(t.take(b) =~= w.subrange(a, a + b));
    assert forall|i: int| 0 <= i < w.len() && (i < a || a + b <= i) implies !alphanumeric(
        #[trigger] w[i],
    ) by {
        if i >= a {
            assert(t[i - a] == w[i]);
        }
    }
    if b > 0 {
        assert(t[b - 1] == w[a + b - 1]);
        assert(t.take(b)[0] == w[a]);
    }
}

proof fn lemma_stripped_start(s: Seq<char>) -> (a: int)
    ensures
        0 <= a <= s.len(),
        strip_start(s) == s.skip(a),
        forall|i: int| 0 <= i < a ==> !alphanumeric(#[trigger] s[i]),
        a < s.len() ==> alphanumeric(s[a]),
    decreases s.len(),
{
    if s.len() > 0 && !alphanumeric(s[0]) {
        let a = lemma_stripped_start(s.drop_first());
        assert(s.drop_first().skip(a) =~= s.skip(a + 1));
        assert forall|i: int| 0 <= i < a + 1 implies !alphanumeric(#[trigger] s[i]) by {
            if i > 0 {
                assert(s.drop_first()[i - 1] == s[i]);
            }
        }
        a + 1
    } else {
        assert(s.skip(0) =~= s);
        0
    }
}

proof fn lemma_stripped_end(s: Seq<char>) -> (b: int)
    ensures
        0 <= b <= s.len(),
        strip_end(s) == s.take(b),
        forall|i: int| b <= i < s.len() ==> !alphanumeric(#[trigger] s[i]),
        b > 0 ==> alphanumeric(s[b - 1]),
    decreases s.len(),
{
    if s.len() > 0 && !alphanumeric(s.last()) {
        let b = lemma_stripped_end(s.drop_last());
        assert(s.drop_last().take(b) =~= s.take(b));
        assert forall|i: int| b <= i < s.len() implies !alphanumeric(#[trigger] s[i]) by {
            if i < s.len() - 1 {
                assert(s.drop_last()[i] == s[i]);
            }
        }
        b
    } else {
        assert(s.take(s.len() as int) =~= s);
        s.len() as int
    }
}

/// The significant words of a text are its words of more than three characters, as they are
/// compared.
pub proof fn lemma_significant(s: Seq<char>, k: Seq<char>)
    ensures
        significant(s).contains(k) <==> k.len() > 3 && exists|i: int|
            0 <= i < words_from(s, 0).len() && word_key(#[trigger] words_from(s, 0)[i]) == k,
{
    let ws = words_from(s, 0);
    lemma_key_words(ws, ws.len() as int, k);
}

proof fn lemma_key_words(ws: Seq<Seq<char>>, n: int, k: Seq<char>)
    requires
        0 <= n <= ws.len(),
    ensures
        key_words(ws, n).contains(k) <==> k.len() > 3 && exists|i: int|
            0 <= i < n && word_key(#[trigger] ws[i]) == k,
    decreases n,
{
    if n > 0 {
        lemma_key_words(ws, n - 1, k);
    }
}

/// Likeness by words goes both ways and is a share; the same words are wholly alike, and texts
/// without a common word not at all.
pub proof fn lemma_words_alike(a: Set<Seq<char>>, b: Set<Seq<char>>)
    requires
        a.finite(),
        b.finite(),
    ensures
        jaccard(a, b) == jaccard(b, a),
        jaccard(a, a).0 == jaccard(a, a).1,
        jaccard(a, b).1 > 0,
        0 <= jaccard(a, b).0 <= jaccard(a, b).1,
        a.disjoint(b) && (a.len() > 0 || b.len() > 0) ==> jaccard(a, b).0 == 0,
        a.len() > 0 && a.subset_of(b) ==> jaccard(a, b) == (a.len() as int, b.len() as int),
{
    assert(a.intersect(b) =~= b.intersect(a));
    assert(a.union(b) =~= b.union(a));
    assert(a.intersect(a) =~= a);
    assert(a.union(a) =~= a);
    assert(a.intersect(b).subset_of(a.union(b)));
    vstd::set_lib::lemma_len_subset(a.intersect(b), a.union(b));
    vstd::set_lib::lemma_len_subset(a, a.union(b));
    if a != Set::<Seq<char>>::empty() {
        assert(a.len() > 0) by {
            if a.len() == 0 {
                a.lemma_len0_is_empty();
            }
        }
    }
    if a.disjoint(b) {
        assert(a.intersect(b) =~= Set::empty());
    }
    if a.subset_of(b) {
        assert(a.intersect(b) =~= a);
        assert(a.union(b) =~= b);
        if a.len() > 0 {
            let x = a.choose();
            assert(a.contains(x) && b.contains(x));
        }
    }
}

// ---- circles

/// Whether the last two windows of a text share enough of their words.
pub open spec fn circles(d: DetectorV) -> bool {
    let n = d.buffer.len() as int;
    let w = d.cycle_window;
    let j = jaccard(
        significant(d.buffer.subrange(n - 2 * w, n - w)),
        significant(d.buffer.subrange(n - w, n)),
    );
    j.0 * d.cycle_threshold.den >= d.cycle_threshold.num * j.1
}

/// What a piece of output does to a detector. It is counted and remembered. Past the limit the
/// detector fires. Before the floor, or before a quarter of a window has come in since the last
/// check, nothing else happens. Else the last two windows are held against each other, where there
/// are two: where they go in circles the streak grows, and fires at its limit; where they do not
/// it ends.
pub proof fn lemma_watching(d: DetectorV, text: Seq<char>)
    requires
        d.fed_chars + text.len() <= usize::MAX,
        d.cycle_window > 0,
        0 <= d.cycle_streak < usize::MAX,
        text.len() > 0,
    ensures
        ({
            let v = d.push(text);
            let fed = d.fed_chars + text.len();
            let all = DetectorV { buffer: d.buffer + text, ..d };
            let enough = all.buffer.len() >= 2 * d.cycle_window;
            let due = fed >= d.min_total_chars && fed - d.last_check_fed >= d.cycle_window / 4;
            &&& v.fed_chars == fed
            &&& fed >= d.max_total_chars ==> v.last_reason == Some(LoopReason::HardCapHit)
                && v.buffer == all.buffer && v.cycle_streak == d.cycle_streak
            &&& fed < d.max_total_chars && !(due && enough) ==> v.last_reason == d.last_reason
                && v.cycle_streak == d.cycle_streak && v.buffer == all.buffer
            &&& fed < d.max_total_chars && due ==> v.last_check_fed == fed
            &&& fed < d.max_total_chars && !due ==> v.last_check_fed == d.last_check_fed
            &&& fed < d.max_total_chars && due && enough && !circles(all) ==> v.cycle_streak == 0
                && v.last_reason == d.last_reason
            &&& fed < d.max_total_chars && due && enough && circles(all) ==> v.cycle_streak
                == d.cycle_streak + 1 && v.last_reason == if d.cycle_streak + 1
                >= d.cycle_streak_limit {
                Some(LoopReason::CycleDetected)
            } else {
                d.last_reason
            }
            &&& v.cycle_window == d.cycle_window && v.cycle_threshold == d.cycle_threshold
                && v.cycle_streak_limit == d.cycle_streak_limit && v.min_total_chars
                == d.min_total_chars && v.max_total_chars == d.max_total_chars
        }),
{
}

/// Only old output is forgotten: what is remembered is the end of all that came in, and two
/// windows of it at least.
pub proof fn lemma_remembered(d: DetectorV, text: Seq<char>)
    requires
        d.cycle_window > 0,
        text.len() > 0,
    ensures
        ({
            let v = d.push(text);
            let all = d.buffer + text;
            &&& v.buffer.len() <= all.len()
            &&& v.buffer == all.skip(all.len() - v.buffer.len())
            &&& v.buffer.len() < all.len() ==> v.buffer.len() == 2 * d.cycle_window && all.len() > 3
                * d.cycle_window
        }),
{
    let v = d.push(text);
    let all = d.buffer + text;
    assert(all.skip(0) =~= all);
    assert(v.buffer =~= all.skip(all.len() - v.buffer.len()));
}

/// No output leaves a detector as it is.
pub proof fn lemma_nothing_watched(d: DetectorV)
    ensures
        d.push(Seq::empty()) == d,
{
}

// ---- days

/// How many days a month has.
pub open spec fn days_in(y: int, m: int) -> int {
    if m == 2 {
        if y % 400 == 0 || (y % 4 == 0 && y % 100 != 0) {
            29
        } else {
            28
        }
    } else if m == 4 || m == 6 || m == 9 || m == 11 {
        30
    } else {
        31
    }
}

/// The day after a date.
pub open spec fn day_after(d: Date) -> Date {
    if d.day < days_in(d.year, d.month) {
        Date { day: d.day + 1, ..d }
    } else if d.month < 12 {
        Date { month: d.month + 1, day: 1, ..d }
    } else {
        Date { year: d.year + 1, month: 1, day: 1 }
    }
}

/// Days are counted one by one from the first of January 1970 on, over months and leap years.
pub proof fn lemma_days(d: Date)
    requires
        d.year >= 1,
        1 <= d.month <= 12,
        1 <= d.day <= days_in(d.year, d.month),
    ensures
        valid_date(d),
        day_number(Date { year: 1970, month: 1, day: 1 }) == 0,
        day_number(day_after(d)) == day_number(d) + 1,
        valid_date(day_after(d)),
{
    lemma_months(d.year, d.month);
    if d.day == days_in(d.year, d.month) && d.month == 12 {
        lemma_leap_years(d.year);
        lemma_months(d.year + 1, 1);
    } else if d.day == days_in(d.year, d.month) {
        lemma_months(d.year, d.month + 1);
    }
}

proof fn lemma_months(y: int, m: int)
    requires
        1 <= m <= 12,
    ensures
        crate::calendar::days_before_month(y, m + 1) - crate::calendar::days_before_month(y, m)
            == days_in(y, m),
        crate::calendar::days_before_month(y, 1) == 0,
        m == 12 ==> crate::calendar::days_before_month(y, m) == days_in(y, 2) + 306,
{
}

proof fn lemma_leap_years(y: int)
    requires
        y >= 1,
    ensures
        crate::calendar::leaps(y) - crate::calendar::leaps(y - 1) == days_in(y, 2) - 28,
{
    lemma_quarters(y, 4);
    lemma_quarters(y, 100);
    lemma_quarters(y, 400);
}

proof fn lemma_quarters(y: int, k: int)
    requires
        y >= 1,
        k == 4 || k == 100 || k == 400,
    ensures
        y / k == (y - 1) / k + if y % k == 0 {
            1int
        } else {
            0
        },
{
}

/// An instant is written with its date and its time of day, each part with as many digits as it
/// takes: the date is the one so many days after 1970 began.
pub proof fn lemma_instants(secs: int, d: Date)
    requires
        valid_date(d),
        day_number(d) == secs / 86400,
    ensures
        ({
            let s = secs % 86400;
            utc_text(secs) == zero_pad(dec(d.year), 4) + zero_pad(dec(d.month), 2) + zero_pad(
                dec(d.day),
                2,
            ) + "-"@ + zero_pad(dec(s / 3600), 2) + zero_pad(dec((s / 60) % 60), 2) + zero_pad(
                dec(s % 60),
                2,
            )
        }),
{
    lemma_date_of(d);
    let s = secs % 86400;
    assert((s % 3600) / 60 == (s / 60) % 60);
}

} // verus!
