//! What the operations on texts give back.

use crate::bytes::{byte_len, byte_prefix, lemma_byte_prefix};
use crate::sorting::{sorted_texts, text_le};
use crate::text::{
    contains, dec, ends_with, find_from, is_at, is_space, join, lemma_find_from, lemma_rfind_from,
    lines_from, occurrences, replaced_from, rfind_from, signed_dec, starts_with, take_chars, trim,
    trim_end, trim_start, zero_pad,
};
use vstd::prelude::*;
use vstd::utf8::encode_utf8;

verus! {

/// The number that a decimal numeral stands for.
pub open spec fn numeral_value(s: Seq<char>) -> int
    decreases s.len(),
{
    if s.len() == 0 {
        0
    } else {
        10 * numeral_value(s.drop_last()) + (s.last() as int - 48)
    }
}

/// A numeral is made of decimal digits, stands for its number and has no leading zero.
pub proof fn lemma_numeral(n: int)
    requires
        n >= 0,
    ensures
        dec(n).len() > 0,
        numeral_value(dec(n)) == n,
        forall|i: int| 0 <= i < dec(n).len() ==> '0' <= #[trigger] dec(n)[i] <= '9',
        n > 0 ==> dec(n)[0] != '0',
        n < 10 ==> dec(n).len() == 1,
    decreases n,
{
    if n < 10 {
        assert(dec(n).drop_last() =~= Seq::empty());
        assert(dec(n).last() as int == 48 + n);
        assert(numeral_value(Seq::<char>::empty()) == 0);
    } else {
        lemma_numeral(n / 10);
        assert(dec(n).drop_last() =~= dec(n / 10));
        assert(dec(n).last() as int == 48 + n % 10);
        assert(10 * (n / 10) + n % 10 == n);
    }
}

/// Different numbers have different numerals.
pub proof fn lemma_numerals_differ(a: int, b: int)
    requires
        a >= 0,
        b >= 0,
        dec(a) == dec(b),
    ensures
        a == b,
{
    lemma_numeral(a);
    lemma_numeral(b);
}

/// A signed numeral is that of the number's size, behind a minus exactly where it is below zero.
pub proof fn lemma_signed_numeral(n: int)
    ensures
        n >= 0 ==> numeral_value(signed_dec(n)) == n && signed_dec(n)[0] != '-',
        n < 0 ==> signed_dec(n)[0] == '-' && numeral_value(signed_dec(n).drop_first()) == -n,
{
    reveal_strlit("-");
    if n < 0 {
        lemma_numeral(-n);
        assert(signed_dec(n).drop_first() =~= dec(-n));
    } else {
        lemma_numeral(n);
    }
}

proof fn lemma_value_behind_zeros(k: nat, s: Seq<char>)
    ensures
        numeral_value(Seq::new(k, |i: int| '0') + s) == numeral_value(s),
    decreases s.len() + k,
{
    let z = Seq::new(k, |i: int| '0');
    let t = z + s;
    if s.len() > 0 {
        lemma_value_behind_zeros(k, s.drop_last());
        assert(t.drop_last() =~= z + s.drop_last());
        assert(t.last() == s.last());
    } else if k > 0 {
        lemma_value_behind_zeros((k - 1) as nat, s);
        assert(t.drop_last() =~= Seq::new((k - 1) as nat, |i: int| '0') + s);
        assert(t.last() == '0');
    } else {
        assert(t =~= s);
    }
}

/// A padded numeral has at least the width asked for, stands for the same number, and is no
/// longer than it has to be.
pub proof fn lemma_padded_numeral(n: int, width: nat)
    requires
        n >= 0,
    ensures
        numeral_value(zero_pad(dec(n), width)) == n,
        zero_pad(dec(n), width).len() == if dec(n).len() > width {
            dec(n).len()
        } else {
            width
        },
{
    lemma_numeral(n);
    if dec(n).len() < width {
        lemma_value_behind_zeros((width - dec(n).len()) as nat, dec(n));
    }
}

// ---- white space

proof fn lemma_trim_start(s: Seq<char>) -> (a: int)
    ensures
        0 <= a <= s.len(),
        trim_start(s) == s.skip(a),
        forall|i: int| 0 <= i < a ==> is_space(#[trigger] s[i]),
        a < s.len() ==> !is_space(s[a]),
    decreases s.len(),
{
    if s.len() > 0 && is_space(s[0]) {
        let a = lemma_trim_start(s.drop_first());
        assert(s.drop_first().skip(a) =~= s.skip(a + 1));
        assert forall|i: int| 0 <= i < a + 1 implies is_space(#[trigger] s[i]) by {
            if i > 0 {
                assert(s.drop_first()[i - 1] == s[i]);
            }
        }
        a + 1
    } else {
        assert(s.skip(0) =~= s);
        0
    }
}

proof fn lemma_trim_end(s: Seq<char>) -> (b: int)
    ensures
        0 <= b <= s.len(),
        trim_end(s) == s.take(b),
        forall|i: int| b <= i < s.len() ==> is_space(#[trigger] s[i]),
        b > 0 ==> !is_space(s[b - 1]),
    decreases s.len(),
{
    if s.len() > 0 && is_space(s.last()) {
        let b = lemma_trim_end(s.drop_last());
        assert(s.drop_last().take(b) =~= s.take(b));
        assert forall|i: int| b <= i < s.len() implies is_space(#[trigger] s[i]) by {
            if i < s.len() - 1 {
                assert(s.drop_last()[i] == s[i]);
            }
        }
        b
    } else {
        assert(s.take(s.len() as int) =~= s);
        s.len() as int
    }
}

/// Whether `t` is `s` without white space at its ends.
pub open spec fn is_trimmed(s: Seq<char>, t: Seq<char>) -> bool {
    &&& t.len() > 0 ==> !is_space(t[0]) && !is_space(t.last())
    &&& exists|a: int, b: int|
        0 <= a <= b <= s.len() && t == #[trigger] s.subrange(a, b) && (forall|i: int|
            0 <= i < s.len() && (i < a || b <= i) ==> is_space(#[trigger] s[i]))
}

/// Trimming takes the white space from both ends and nothing else.
pub proof fn lemma_trimmed(s: Seq<char>)
    ensures
        is_trimmed(s, trim(s)),
{
    let a = lemma_trim_start(s);
    let t = s.skip(a);
    let b = lemma_trim_end(t);
    assert(t.take(b) =~= s.subrange(a, a + b));
    assert forall|i: int| 0 <= i < s.len() && (i < a || a + b <= i) implies is_space(
        #[trigger] s[i],
    ) by {
        if i >= a {
            assert(t[i - a] == s[i]);
        }
    }
    if trim(s).len() > 0 {
        assert(trim(s)[0] == s[a]);
        assert(trim(s).last() == t[b - 1]);
    }
}

/// A space, a tab and the line ends are white space, and no letter, digit or mark of ASCII is.
pub proof fn lemma_white_space(c: char)
    ensures
        is_space(' ') && is_space('\t') && is_space('\n') && is_space('\r'),
        '!' <= c <= '~' ==> !is_space(c),
{
}

// ---- lines

proof fn lemma_find_shift(s: Seq<char>, t: Seq<char>, d: int, i: int)
    requires
        0 <= d <= s.len(),
        0 <= i,
        t == s.skip(d),
    ensures
        find_from(s, "\n"@, d + i) == match find_from(t, "\n"@, i) {
            Some(p) => Some(p + d),
            None => None,
        },
    decreases t.len() - i + 1,
{
    reveal_strlit("\n");
    if i + 1 <= t.len() {
        assert(s.subrange(d + i, d + i + 1) =~= t.subrange(i, i + 1));
        if !is_at(t, "\n"@, i) {
            lemma_find_shift(s, t, d, i + 1);
        }
    }
}

proof fn lemma_lines_shift(s: Seq<char>, d: int, i: int)
    requires
        0 <= d <= s.len(),
        0 <= i,
    ensures
        lines_from(s, d + i) == lines_from(s.skip(d), i),
    decreases s.len() - d - i,
{
    let t = s.skip(d);
    if i < t.len() {
        lemma_find_shift(s, t, d, i);
        lemma_find_from(t, "\n"@, i);
        reveal_strlit("\n");
        match find_from(t, "\n"@, i) {
            Some(p) => {
                lemma_lines_shift(s, d, p + 1);
                assert(s.subrange(d + i, d + p) =~= t.subrange(i, p));
                assert(p > i ==> s[d + p - 1] == t[p - 1]);
                assert(p > i ==> s.subrange(d + i, d + p - 1) =~= t.subrange(i, p - 1));
            },
            None => {
                assert(s.skip(d + i) =~= t.skip(i));
            },
        }
    }
}

proof fn lemma_first_break(s: Seq<char>, p: int)
    requires
        0 <= p < s.len(),
        s[p] == '\n',
        forall|i: int| 0 <= i < p ==> #[trigger] s[i] != '\n',
    ensures
        find_from(s, "\n"@, 0) == Some(p),
{
    reveal_strlit("\n");
    lemma_find_from(s, "\n"@, 0);
    assert(s.subrange(p, p + 1) =~= "\n"@);
    assert(is_at(s, "\n"@, p));
    if let Some(q) = find_from(s, "\n"@, 0) {
        if q < p {
            assert(s.subrange(q, q + 1)[0] == '\n');
            assert(s[q] == '\n');
        }
    }
}

/// A text without characters has no lines.
pub proof fn lemma_no_lines()
    ensures
        lines_from(Seq::empty(), 0).len() == 0,
{
}

/// A text without line ends is one line.
pub proof fn lemma_one_line(t: Seq<char>)
    requires
        t.len() > 0,
        !t.contains('\n'),
    ensures
        lines_from(t, 0) == seq![t],
{
    reveal_strlit("\n");
    lemma_find_from(t, "\n"@, 0);
    if let Some(q) = find_from(t, "\n"@, 0) {
        assert(t.subrange(q, q + 1)[0] == '\n');
        assert(t[q] == '\n');
    }
    assert(t.skip(0) =~= t);
}

/// What stands before the first line end is the first line, and the rest has the other lines.
pub proof fn lemma_first_line(t: Seq<char>, rest: Seq<char>)
    requires
        !t.contains('\n'),
        t.len() > 0 ==> t.last() != '\r',
    ensures
        lines_from(t + seq!['\n'] + rest, 0) == seq![t] + lines_from(rest, 0),
{
    let s = t + seq!['\n'] + rest;
    let p = t.len() as int;
    assert forall|i: int| 0 <= i < p implies #[trigger] s[i] != '\n' by {
        assert(t.contains(t[i]));
        assert(s[i] == t[i]);
    }
    lemma_first_break(s, p);
    assert(p > 0 ==> s[p - 1] == t.last());
    assert(s.subrange(0, p) =~= t);
    assert(s.skip(p + 1) =~= rest);
    lemma_lines_shift(s, p + 1, 0);
}

/// A carriage return before a line end belongs to the line end.
pub proof fn lemma_first_line_with_return(t: Seq<char>, rest: Seq<char>)
    requires
        !t.contains('\n'),
    ensures
        lines_from(t + seq!['\r', '\n'] + rest, 0) == seq![t] + lines_from(rest, 0),
{
    let s = t + seq!['\r', '\n'] + rest;
    let p = t.len() as int + 1;
    assert forall|i: int| 0 <= i < p implies #[trigger] s[i] != '\n' by {
        if i < t.len() {
            assert(t.contains(t[i]));
            assert(s[i] == t[i]);
        }
    }
    lemma_first_break(s, p);
    assert(s.subrange(0, p - 1) =~= t);
    assert(s.skip(p + 1) =~= rest);
    lemma_lines_shift(s, p + 1, 0);
}

// ---- parts of texts

/// A text contains another where it is that text with something before and after it.
pub proof fn lemma_contains(h: Seq<char>, needle: Seq<char>)
    ensures
        contains(h, needle) <==> exists|a: Seq<char>, b: Seq<char>| h == #[trigger] (a + needle + b),
{
    lemma_find_from(h, needle, 0);
    if let Some(p) = find_from(h, needle, 0) {
        let (a, b) = (h.take(p), h.skip(p + needle.len()));
        assert(h =~= a + needle + b);
    }
    if exists|a: Seq<char>, b: Seq<char>| h == #[trigger] (a + needle + b) {
        let (a, b) = choose|a: Seq<char>, b: Seq<char>| h == #[trigger] (a + needle + b);
        assert(h.subrange(a.len() as int, a.len() as int + needle.len()) =~= needle);
        assert(is_at(h, needle, a.len() as int));
    }
}

/// A text begins with another where it is that text with something after it.
pub proof fn lemma_starts(h: Seq<char>, needle: Seq<char>)
    ensures
        starts_with(h, needle) <==> exists|b: Seq<char>| h == #[trigger] (needle + b),
{
    if starts_with(h, needle) {
        let b = h.skip(needle.len() as int);
        assert(h =~= needle + b);
    }
    if exists|b: Seq<char>| h == #[trigger] (needle + b) {
        let b = choose|b: Seq<char>| h == #[trigger] (needle + b);
        assert(h.subrange(0, 0int + needle.len()) =~= needle);
    }
}

/// A text ends with another where it is that text with something before it.
pub proof fn lemma_ends(h: Seq<char>, needle: Seq<char>)
    ensures
        ends_with(h, needle) <==> exists|a: Seq<char>| h == #[trigger] (a + needle),
{
    let p = h.len() - needle.len();
    if ends_with(h, needle) {
        let a = h.take(p);
        assert(h =~= a + needle);
    }
    if exists|a: Seq<char>| h == #[trigger] (a + needle) {
        let a = choose|a: Seq<char>| h == #[trigger] (a + needle);
        assert(h.subrange(p, p + needle.len()) =~= needle);
    }
}

/// Joining one text gives that text; joining two lists gives what each gives, with the
/// separator between.
pub proof fn lemma_joined(a: Seq<Seq<char>>, b: Seq<Seq<char>>, sep: Seq<char>)
    requires
        a.len() > 0,
        b.len() > 0,
    ensures
        join(a + b, sep) == join(a, sep) + sep + join(b, sep),
        a.len() == 1 ==> join(a, sep) == a[0],
        join(Seq::empty(), sep).len() == 0,
    decreases b.len(),
{
    assert((a + b).drop_last() =~= a + b.drop_last());
    if b.len() == 1 {
        assert(a + b.drop_last() =~= a);
    } else {
        lemma_joined(a, b.drop_last(), sep);
        assert(join(a + b, sep) =~= join(a, sep) + sep + join(b, sep));
    }
}

/// The first characters of a text are its beginning, as long as asked for where it is that long.
pub proof fn lemma_taken(s: Seq<char>, n: int)
    requires
        n >= 0,
    ensures
        take_chars(s, n).len() == if s.len() < n {
            s.len() as int
        } else {
            n
        },
        forall|i: int| 0 <= i < take_chars(s, n).len() ==> #[trigger] take_chars(s, n)[i] == s[i],
{
}

// ---- replacing

proof fn lemma_find_shift_any(s: Seq<char>, t: Seq<char>, old: Seq<char>, d: int, i: int)
    requires
        0 <= d <= s.len(),
        0 <= i,
        t == s.skip(d),
    ensures
        find_from(s, old, d + i) == match find_from(t, old, i) {
            Some(p) => Some(p + d),
            None => None,
        },
    decreases t.len() - i + 1,
{
    if i + old.len() <= t.len() {
        assert(s.subrange(d + i, d + i + old.len()) =~= t.subrange(i, i + old.len()));
        if !is_at(t, old, i) {
            lemma_find_shift_any(s, t, old, d, i + 1);
        }
    }
}

proof fn lemma_replace_shift(s: Seq<char>, old: Seq<char>, new: Seq<char>, d: int, i: int)
    requires
        0 <= d <= s.len(),
        0 <= i,
        old.len() > 0,
    ensures
        replaced_from(s, old, new, d + i) == replaced_from(s.skip(d), old, new, i),
        occurrences(s, old, d + i) == occurrences(s.skip(d), old, i),
    decreases s.len() - d - i,
{
    let t = s.skip(d);
    if i <= t.len() {
        lemma_find_shift_any(s, t, old, d, i);
        lemma_find_from(t, old, i);
        match find_from(t, old, i) {
            Some(p) => {
                lemma_replace_shift(s, old, new, d, p + old.len());
                assert(s.subrange(d + i, d + p) =~= t.subrange(i, p));
            },
            None => {
                assert(s.skip(d + i) =~= t.skip(i));
            },
        }
    }
}

/// A text in which nothing is to be replaced stays as it is.
pub proof fn lemma_nothing_replaced(s: Seq<char>, old: Seq<char>, new: Seq<char>)
    requires
        old.len() > 0,
        forall|a: Seq<char>, b: Seq<char>| s != #[trigger] (a + old + b),
    ensures
        replaced_from(s, old, new, 0) == s,
        occurrences(s, old, 0) == 0,
{
    lemma_find_from(s, old, 0);
    if let Some(p) = find_from(s, old, 0) {
        let (a, b) = (s.take(p), s.skip(p + old.len()));
        assert(s =~= a + old + b);
    }
    assert(s.skip(0) =~= s);
}

/// The first occurrence is replaced, what stands before it stays, and behind it the replacing
/// goes on.
pub proof fn lemma_first_replaced(a: Seq<char>, b: Seq<char>, old: Seq<char>, new: Seq<char>)
    requires
        old.len() > 0,
        forall|i: int|
            0 <= i < a.len() ==> #[trigger] (a + old + b).subrange(i, i + old.len()) != old,
    ensures
        replaced_from(a + old + b, old, new, 0) == a + new + replaced_from(b, old, new, 0),
        occurrences(a + old + b, old, 0) == 1 + occurrences(b, old, 0),
{
    let s = a + old + b;
    let p = a.len() as int;
    let q = p + old.len();
    lemma_find_from(s, old, 0);
    assert(s.subrange(p, q) =~= old);
    assert(is_at(s, old, p));
    assert(find_from(s, old, 0) == Some(p));
    assert(s.subrange(0, p) =~= a);
    assert(s.skip(q) =~= b);
    lemma_replace_shift(s, old, new, q, 0);
}

/// The first and the last position of a text in another: it stands there, and at none before
/// or after.
pub proof fn lemma_positions(h: Seq<char>, needle: Seq<char>, p: int)
    ensures
        find_from(h, needle, 0) == Some(p) ==> 0 <= p <= h.len() - needle.len() && h.subrange(
            p,
            p + needle.len(),
        ) == needle && forall|q: int|
            0 <= q < p ==> #[trigger] h.subrange(q, q + needle.len()) != needle,
        rfind_from(h, needle, h.len() as int) == Some(p) ==> 0 <= p <= h.len() - needle.len()
            && h.subrange(p, p + needle.len()) == needle && forall|q: int|
            p < q <= h.len() - needle.len() ==> #[trigger] h.subrange(q, q + needle.len())
                != needle,
{
    lemma_find_from(h, needle, 0);
    lemma_rfind_from(h, needle, h.len() as int);
    if find_from(h, needle, 0) == Some(p) {
        assert forall|q: int| 0 <= q < p implies #[trigger] h.subrange(q, q + needle.len())
            != needle by {
            assert(!is_at(h, needle, q));
        }
    }
    if rfind_from(h, needle, h.len() as int) == Some(p) {
        assert forall|q: int| p < q <= h.len() - needle.len() implies #[trigger] h.subrange(
            q,
            q + needle.len(),
        ) != needle by {
            assert(!is_at(h, needle, q));
        }
    }
}

// ---- bytes and order

/// A text is as long in bytes as its encoding, and its beginning of up to so many bytes is the
/// longest that fits.
pub proof fn lemma_bytes(s: Seq<char>, max: int)
    requires
        0 <= max,
    ensures
        byte_len(s) == encode_utf8(s).len(),
        ({
            let p = byte_prefix(s, max);
            &&& p.len() <= s.len() && p == s.take(p.len() as int)
            &&& encode_utf8(p).len() <= max
            &&& encode_utf8(s).len() <= max ==> p == s
            &&& encode_utf8(s).len() > max ==> p.len() < s.len() && encode_utf8(
                s.take(p.len() as int + 1),
            ).len() > max
        }),
{
    lemma_byte_prefix(s, max);
    let p = byte_prefix(s, max);
    assert(p =~= s.take(p.len() as int));
}

/// Texts are ordered by the first character in which they differ; one that begins another comes
/// first.
pub proof fn lemma_text_order(p: Seq<char>, x: char, y: char, s: Seq<char>, t: Seq<char>)
    requires
        x < y,
    ensures
        text_le(p + seq![x] + s, p + seq![y] + t),
        !text_le(p + seq![y] + t, p + seq![x] + s),
        text_le(p, p + t),
        t.len() > 0 ==> !text_le(p + t, p),
    decreases p.len(),
{
    let (a, b) = (p + seq![x] + s, p + seq![y] + t);
    if p.len() == 0 {
        assert(a[0] == x && b[0] == y);
        assert(p + t =~= t);
    } else {
        let q = p.drop_first();
        lemma_text_order(q, x, y, s, t);
        assert(a.drop_first() =~= q + seq![x] + s);
        assert(b.drop_first() =~= q + seq![y] + t);
        assert(a[0] == p[0] && b[0] == p[0]);
        assert((p + t).drop_first() =~= q + t);
        assert((p + t)[0] == p[0]);
    }
}

/// Sorting texts brings them in order and keeps each as often as it was there.
pub proof fn lemma_texts_sorted(s: Seq<Seq<char>>)
    ensures
        sorted_texts(s).to_multiset() == s.to_multiset(),
        sorted_texts(s).len() == s.len(),
        forall|i: int, j: int|
            0 <= i < j < s.len() ==> text_le(
                #[trigger] sorted_texts(s)[i],
                #[trigger] sorted_texts(s)[j],
            ),
{
    let key = crate::sorting::itself();
    crate::sorting::lemma_sorted_by(s, key, s.len() as int);
    assert(s.take(s.len() as int) =~= s);
    let t = sorted_texts(s);
    assert forall|i: int, j: int| 0 <= i < j < s.len() implies text_le(
        #[trigger] t[i],
        #[trigger] t[j],
    ) by {
        assert(text_le(key(t[i]), key(t[j])));
    }
}

} // verus!
