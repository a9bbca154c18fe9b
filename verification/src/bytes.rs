//! Lengths of texts in bytes of UTF-8, and cuts at character boundaries.

use crate::text::{slice_text, to_chars};
use vstd::prelude::*;
use vstd::utf8::{encode_scalar, encode_utf8};

verus! {

/// The number of bytes of UTF-8 that `s` takes.
pub open spec fn byte_len(s: Seq<char>) -> int {
    encode_utf8(s).len() as int
}

/// The number of characters, at most `k`, that the longest prefix of at most `max`
/// bytes holds.
pub open spec fn whole_chars(s: Seq<char>, max: int, k: int) -> int
    decreases k,
{
    if k <= 0 || byte_len(s.take(k)) <= max {
        k
    } else {
        whole_chars(s, max, k - 1)
    }
}

/// The longest prefix of `s` that takes at most `max` bytes.
pub open spec fn byte_prefix(s: Seq<char>, max: int) -> Seq<char> {
    s.take(whole_chars(s, max, s.len() as int))
}

/// Whether a character of `s` begins, or `s` ends, after exactly `n` bytes.
pub open spec fn cuts_at(s: Seq<char>, n: int) -> bool {
    exists|k: int| 0 <= k <= s.len() && byte_len(#[trigger] s.take(k)) == n
}

/// The encoding of a concatenation is the concatenation of the encodings.
pub proof fn lemma_encode_concat(a: Seq<char>, b: Seq<char>)
    ensures
        encode_utf8(a + b) == encode_utf8(a) + encode_utf8(b),
    decreases a.len(),
{
    if a.len() == 0 {
        assert(a + b =~= b);
        assert(encode_utf8(a) + encode_utf8(b) =~= encode_utf8(b));
    } else {
        assert((a + b).drop_first() =~= a.drop_first() + b);
        lemma_encode_concat(a.drop_first(), b);
        assert(encode_utf8(a + b) =~= encode_utf8(a) + encode_utf8(b));
    }
}

/// One more character adds the bytes of that character.
pub proof fn lemma_byte_len_take(s: Seq<char>, k: int)
    requires
        0 <= k < s.len(),
    ensures
        byte_len(s.take(k + 1)) == byte_len(s.take(k)) + encode_scalar(s[k] as u32).len(),
        1 <= encode_scalar(s[k] as u32).len() <= 4,
{
    let c = seq![s[k]];
    assert(s.take(k + 1) =~= s.take(k) + c);
    lemma_encode_concat(s.take(k), c);
    assert(c.drop_first() =~= Seq::empty());
    assert(encode_utf8(c) =~= encode_scalar(s[k] as u32)) by {
        reveal_with_fuel(encode_utf8, 2);
    }
}

/// Longer prefixes take at least as many bytes.
pub proof fn lemma_byte_len_monotone(s: Seq<char>, i: int, j: int)
    requires
        0 <= i <= j <= s.len(),
    ensures
        byte_len(s.take(i)) <= byte_len(s.take(j)),
    decreases j - i,
{
    if i < j {
        lemma_byte_len_take(s, j - 1);
        lemma_byte_len_monotone(s, i, j - 1);
    }
}

/// The position that a bounded prefix reaches, when the next one is beyond the bound.
proof fn lemma_whole_chars(s: Seq<char>, max: int, p: int, k: int)
    requires
        0 <= p <= k <= s.len(),
        byte_len(s.take(p)) <= max,
        p < s.len() ==> byte_len(s.take(p + 1)) > max,
    ensures
        whole_chars(s, max, k) == p,
    decreases k,
{
    if k > p {
        lemma_byte_len_monotone(s, p + 1, k);
        lemma_whole_chars(s, max, p, k - 1);
    }
}

/// The prefix stays within the bound, is all of a text that fits, and else leaves no
/// room for one character more.
pub proof fn lemma_byte_prefix(s: Seq<char>, max: int)
    requires
        0 <= max,
    ensures
        byte_prefix(s, max).is_prefix_of(s),
        byte_len(byte_prefix(s, max)) <= max,
        byte_len(s) <= max ==> byte_prefix(s, max) == s,
        byte_len(s) > max ==> byte_prefix(s, max).len() < s.len() && byte_len(
            s.take(byte_prefix(s, max).len() as int + 1),
        ) > max,
{
    let k = whole_chars(s, max, s.len() as int);
    lemma_whole_chars_bounds(s, max, s.len() as int);
    assert(s.take(s.len() as int) =~= s);
}

proof fn lemma_whole_chars_bounds(s: Seq<char>, max: int, k: int)
    requires
        0 <= max,
        0 <= k <= s.len(),
    ensures
        0 <= whole_chars(s, max, k) <= k,
        byte_len(s.take(whole_chars(s, max, k))) <= max,
        whole_chars(s, max, k) < k ==> byte_len(s.take(whole_chars(s, max, k) + 1)) > max,
    decreases k,
{
    assert(s.take(0) =~= Seq::<char>::empty());
    if k > 0 && byte_len(s.take(k)) > max {
        lemma_whole_chars_bounds(s, max, k - 1);
    }
}

/// The number of bytes that `c` takes.
pub fn char_width(c: char) -> (r: usize)
    ensures
        r == encode_scalar(c as u32).len(),
        1 <= r <= 4,
{
    let n: u32 = c as u32;
    if n <= 0x7f {
        1
    } else if n <= 0x7ff {
        2
    } else if n <= 0xffff {
        3
    } else {
        4
    }
}

/// How many characters the longest prefix of at most `max` bytes holds, and how many
/// bytes it takes.
pub fn measure_prefix(v: &Vec<char>, max: usize) -> (r: (usize, usize))
    ensures
        r.0 <= v@.len(),
        r.0 == whole_chars(v@, max as int, v@.len() as int),
        r.1 == byte_len(v@.take(r.0 as int)),
        r.1 <= max,
        r.0 < v@.len() ==> byte_len(v@.take(r.0 + 1)) > max,
{
    let mut used: usize = 0;
    let mut k: usize = 0;
    assert(v@.take(0) =~= Seq::<char>::empty());
    while k < v.len()
        invariant
            k <= v@.len(),
            used == byte_len(v@.take(k as int)),
            used <= max,
        decreases v.len() - k,
    {
        let w: usize = char_width(v[k]);
        proof {
            lemma_byte_len_take(v@, k as int);
        }
        if w > max - used {
            proof {
                lemma_whole_chars(v@, max as int, k as int, v@.len() as int);
            }
            return (k, used);
        }
        used = used + w;
        k = k + 1;
    }
    proof {
        lemma_whole_chars(v@, max as int, k as int, v@.len() as int);
    }
    (k, used)
}

/// The longest prefix of `s` that takes at most `max` bytes.
pub fn take_bytes(s: &str, max: usize) -> (r: String)
    ensures
        r@ == byte_prefix(s@, max as int),
{
    let v = to_chars(s);
    let (k, used) = measure_prefix(&v, max);
    assert(v@.subrange(0, k as int) =~= v@.take(k as int));
    slice_text(&v, 0, k)
}

/// Whether a character of `s` begins, or `s` ends, after exactly `n` bytes.
pub fn is_cut(s: &str, n: usize) -> (r: bool)
    ensures
        r == cuts_at(s@, n as int),
{
    let v = to_chars(s);
    let (k, used) = measure_prefix(&v, n);
    proof {
        if used < n {
            assert forall|j: int| 0 <= j <= v@.len() implies byte_len(#[trigger] s@.take(j))
                != n by {
                if j <= k {
                    lemma_byte_len_monotone(v@, j, k as int);
                } else {
                    lemma_byte_len_monotone(v@, k + 1, j);
                }
            }
        }
    }
    used == n
}

/// The number of bytes that `s` takes.
pub fn byte_count(s: &str) -> (r: usize)
    ensures
        byte_len(s@) <= usize::MAX ==> r == byte_len(s@),
        r == byte_len(byte_prefix(s@, usize::MAX as int)),
{
    let v = to_chars(s);
    let (k, used) = measure_prefix(&v, usize::MAX);
    proof {
        if k < v@.len() {
            lemma_byte_len_monotone(v@, k + 1, v@.len() as int);
        }
        assert(v@.take(v@.len() as int) =~= v@);
    }
    used
}

} // verus!
