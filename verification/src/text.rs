//! Text primitives: slices of characters, searching, joining, decimal numerals.
//!
//! A string is modelled by its sequence of characters.

use vstd::prelude::*;

verus! {

/// `String::push` appends one character to the end of the string.
pub assume_specification[ String::push ](s: &mut String, c: char)
    ensures
        final(s)@ == old(s)@.push(c),
;

/// `==` on `str` holds of two slices exactly when they have the same characters.
pub assume_specification[ <str as PartialEq>::eq ](s: &str, other: &str) -> (r: bool)
    ensures
        r == (s@ == other@),
;

/// What `str::to_lowercase` makes of a text.
pub uninterp spec fn lowercase(s: Seq<char>) -> Seq<char>;

/// What `char::is_alphanumeric` says of a character.
pub uninterp spec fn alphanumeric(c: char) -> bool;

/// The lowercase form of an ASCII letter; any other character as it is.
pub open spec fn ascii_lower(c: char) -> char {
    if 'A' <= c && c <= 'Z' {
        (c as u32 + 32) as char
    } else {
        c
    }
}

/// Whether the character is an ASCII letter or digit.
pub open spec fn ascii_alnum(c: char) -> bool {
    ('a' <= c && c <= 'z') || ('A' <= c && c <= 'Z') || ('0' <= c && c <= '9')
}

/// Whether every character of `s` is ASCII.
pub open spec fn ascii(s: Seq<char>) -> bool {
    forall|i: int| 0 <= i < s.len() ==> (#[trigger] s[i] as u32) < 128
}

/// `str::to_lowercase`: the result depends on the text alone, and of an ASCII text it
/// has each letter `A` to `Z` in its lowercase form and the rest as it was.
#[verifier::external_body]
pub(crate) fn to_lowercase(s: &str) -> (r: String)
    ensures
        r@ == lowercase(s@),
        ascii(s@) ==> r@ == s@.map_values(|c: char| ascii_lower(c)),
{
    s.to_lowercase()
}

/// `char::is_alphanumeric`: the result depends on the character alone, and of an ASCII
/// character it holds exactly of letters and digits.
#[verifier::external_body]
pub(crate) fn is_alphanumeric(c: char) -> (r: bool)
    ensures
        r == alphanumeric(c),
        (c as u32) < 128 ==> r == ascii_alnum(c),
{
    c.is_alphanumeric()
}

/// The lowercase form of an ASCII letter; any other character as it is.
pub fn to_ascii_lower(c: char) -> (r: char)
    ensures
        r == ascii_lower(c),
{
    if 'A' <= c && c <= 'Z' {
        let n: u8 = c as u8;
        (n + 32) as char
    } else {
        c
    }
}

/// Whether the two strings have the same characters.
pub fn same(a: &str, b: &str) -> (r: bool)
    ensures
        r == (a@ == b@),
{
    *a == *b
}

/// The characters of `s`, in order.
pub fn to_chars(s: &str) -> (r: Vec<char>)
    ensures
        r@ == s@,
{
    let mut out: Vec<char> = Vec::new();
    for c in it: s.chars()
        invariant
            it.seq() == s@,
            out@ == s@.take(it.index() as int),
    {
        out.push(c);
        assert(s@.take(it.index() + 1) =~= s@.take(it.index() as int).push(c));
    }
    assert(s@.take(s@.len() as int) =~= s@);
    out
}

/// The string made of the characters `v[from..to]`.
pub fn slice_text(v: &Vec<char>, from: usize, to: usize) -> (r: String)
    requires
        from <= to <= v@.len(),
    ensures
        r@ == v@.subrange(from as int, to as int),
{
    let mut out = String::new();
    let mut i: usize = from;
    while i < to
        invariant
            from <= i <= to <= v@.len(),
            out@ == v@.subrange(from as int, i as int),
        decreases to - i,
    {
        out.push(v[i]);
        i = i + 1;
        assert(v@.subrange(from as int, i as int) =~= v@.subrange(from as int, i - 1).push(
            v@[i - 1],
        ));
    }
    out
}

/// The string made of the characters of `v`.
pub fn from_chars(v: &Vec<char>) -> (r: String)
    ensures
        r@ == v@,
{
    let r = slice_text(v, 0, v.len());
    assert(v@.subrange(0, v@.len() as int) =~= v@);
    r
}

/// Appends the characters of `s` to `v`.
pub fn push_str(v: &mut Vec<char>, s: &str)
    ensures
        final(v)@ == old(v)@ + s@,
{
    let ghost start = v@;
    for c in it: s.chars()
        invariant
            it.seq() == s@,
            v@ == start + s@.take(it.index() as int),
    {
        v.push(c);
        assert(start + s@.take(it.index() + 1) =~= (start + s@.take(it.index() as int)).push(c));
    }
    assert(start + s@.take(s@.len() as int) =~= start + s@);
}

/// The string `s` owned.
pub fn owned(s: &str) -> (r: String)
    ensures
        r@ == s@,
{
    s.to_owned()
}

/// An owned copy of every string of `v`.
pub fn clone_strings(v: &[String]) -> (r: Vec<String>)
    ensures
        texts(r@) == texts(v@),
        r@.len() == v@.len(),
{
    let mut out: Vec<String> = Vec::new();
    for i in 0..v.len()
        invariant
            texts(out@) == texts(v@).take(i as int),
            out@.len() == i,
            i <= v@.len(),
    {
        out.push(v[i].clone());
        assert(texts(out@) =~= texts(v@).take(i as int).push(v@[i as int]@));
        assert(texts(v@).take(i + 1) =~= texts(v@).take(i as int).push(texts(v@)[i as int]));
    }
    assert(texts(v@).take(v@.len() as int) =~= texts(v@));
    out
}

/// The characters of every string of `v`.
pub open spec fn texts(v: Seq<String>) -> Seq<Seq<char>> {
    v.map_values(|s: String| s@)
}

/// The same, of an optional string.
pub open spec fn opt_text(v: Option<String>) -> Option<Seq<char>> {
    match v {
        Some(s) => Some(s@),
        None => None,
    }
}

/// The same, of an optional borrowed string.
pub open spec fn opt_str(v: Option<&str>) -> Option<Seq<char>> {
    match v {
        Some(s) => Some(s@),
        None => None,
    }
}

/// A result over texts, as sequences of characters.
pub open spec fn text_result(r: Result<String, String>) -> Result<Seq<char>, Seq<char>> {
    match r {
        Ok(s) => Ok(s@),
        Err(e) => Err(e@),
    }
}

/// Whether `needle` stands in `h` at position `i`.
pub open spec fn is_at(h: Seq<char>, needle: Seq<char>, i: int) -> bool {
    0 <= i && i + needle.len() <= h.len() && h.subrange(i, i + needle.len()) == needle
}

/// The first position, from `i` on, at which `needle` stands in `h`.
pub open spec fn find_from(h: Seq<char>, needle: Seq<char>, i: int) -> Option<int>
    decreases h.len() - i + 1,
{
    if i < 0 || i + needle.len() > h.len() {
        None
    } else if is_at(h, needle, i) {
        Some(i)
    } else {
        find_from(h, needle, i + 1)
    }
}

/// The last position, up to `i`, at which `needle` stands in `h`.
pub open spec fn rfind_from(h: Seq<char>, needle: Seq<char>, i: int) -> Option<int>
    decreases i + 1,
{
    if i < 0 {
        None
    } else if is_at(h, needle, i) {
        Some(i)
    } else {
        rfind_from(h, needle, i - 1)
    }
}

/// Whether `needle` stands anywhere in `h`.
pub open spec fn contains(h: Seq<char>, needle: Seq<char>) -> bool {
    find_from(h, needle, 0) is Some
}

/// Whether `h` begins with `prefix`.
pub open spec fn starts_with(h: Seq<char>, prefix: Seq<char>) -> bool {
    is_at(h, prefix, 0)
}

/// Whether `h` ends with `suffix`.
pub open spec fn ends_with(h: Seq<char>, suffix: Seq<char>) -> bool {
    is_at(h, suffix, h.len() - suffix.len())
}

/// A found position is one where the needle stands, and none stands before it.
pub proof fn lemma_find_from(h: Seq<char>, needle: Seq<char>, i: int)
    requires
        0 <= i,
    ensures
        find_from(h, needle, i) matches Some(p) ==> i <= p && is_at(h, needle, p) && forall|q: int|
            i <= q < p ==> !is_at(h, needle, q),
        find_from(h, needle, i) is None ==> forall|q: int| i <= q ==> !is_at(h, needle, q),
    decreases h.len() - i + 1,
{
    if i + needle.len() > h.len() {
    } else if is_at(h, needle, i) {
    } else {
        lemma_find_from(h, needle, i + 1);
    }
}

/// A last position is one where the needle stands, and none stands after it up to the bound.
pub proof fn lemma_rfind_from(h: Seq<char>, needle: Seq<char>, i: int)
    ensures
        rfind_from(h, needle, i) matches Some(p) ==> p <= i && is_at(h, needle, p) && forall|q: int|
            p < q <= i ==> !is_at(h, needle, q),
        rfind_from(h, needle, i) is None ==> forall|q: int| q <= i ==> !is_at(h, needle, q),
    decreases i + 1,
{
    if i < 0 {
    } else if is_at(h, needle, i) {
    } else {
        lemma_rfind_from(h, needle, i - 1);
    }
}

/// Whether `needle` stands in `h` at position `i`.
pub fn matches_at(h: &Vec<char>, needle: &Vec<char>, i: usize) -> (r: bool)
    ensures
        r == is_at(h@, needle@, i as int),
{
    if needle.len() > h.len() || i > h.len() - needle.len() {
        return false;
    }
    let mut k: usize = 0;
    while k < needle.len()
        invariant
            k <= needle@.len(),
            i + needle@.len() <= h@.len() <= usize::MAX,
            forall|j: int| 0 <= j < k ==> h@[i + j] == needle@[j],
        decreases needle.len() - k,
    {
        if h[i + k] != needle[k] {
            assert(h@.subrange(i as int, i + needle@.len())[k as int] != needle@[k as int]);
            return false;
        }
        k = k + 1;
    }
    assert(h@.subrange(i as int, i + needle@.len()) =~= needle@);
    true
}

/// The first position, from `from` on, at which `needle` stands in `h`.
pub fn find(h: &Vec<char>, needle: &Vec<char>, from: usize) -> (r: Option<usize>)
    ensures
        match r {
            Some(p) => find_from(h@, needle@, from as int) == Some(p as int),
            None => find_from(h@, needle@, from as int) is None,
        },
        r matches Some(p) ==> from <= p && p + needle@.len() <= h@.len() <= usize::MAX && is_at(
            h@,
            needle@,
            p as int,
        ),
{
    if needle.len() > h.len() {
        return None;
    }
    let last: usize = h.len() - needle.len();
    let mut i: usize = from;
    while i <= last
        invariant
            from <= i,
            last == h@.len() - needle@.len(),
            h@.len() <= usize::MAX,
            last < usize::MAX || needle@.len() == 0,
            find_from(h@, needle@, from as int) == find_from(h@, needle@, i as int),
        decreases last + 1 - i,
    {
        if matches_at(h, needle, i) {
            return Some(i);
        }
        if i == last {
            assert(find_from(h@, needle@, i + 1) is None);
            return None;
        }
        i = i + 1;
    }
    None
}

/// The last position at which `needle` stands in `h`.
pub fn rfind(h: &Vec<char>, needle: &Vec<char>) -> (r: Option<usize>)
    ensures
        match r {
            Some(p) => rfind_from(h@, needle@, h@.len() - needle@.len()) == Some(p as int),
            None => rfind_from(h@, needle@, h@.len() - needle@.len()) is None,
        },
        r matches Some(p) ==> p + needle@.len() <= h@.len() && is_at(h@, needle@, p as int),
{
    if needle.len() > h.len() {
        return None;
    }
    let mut i: usize = h.len() - needle.len();
    loop
        invariant
            i + needle@.len() <= h@.len(),
            rfind_from(h@, needle@, h@.len() - needle@.len()) == rfind_from(h@, needle@, i as int),
        decreases i,
    {
        if matches_at(h, needle, i) {
            return Some(i);
        }
        if i == 0 {
            assert(rfind_from(h@, needle@, -1) is None);
            return None;
        }
        i = i - 1;
    }
}

/// Whether `needle` stands anywhere in `h`.
pub fn contains_str(h: &str, needle: &str) -> (r: bool)
    ensures
        r == contains(h@, needle@),
{
    find(&to_chars(h), &to_chars(needle), 0).is_some()
}

/// Whether `h` begins with `prefix`.
pub fn starts_with_str(h: &str, prefix: &str) -> (r: bool)
    ensures
        r == starts_with(h@, prefix@),
{
    matches_at(&to_chars(h), &to_chars(prefix), 0)
}

/// Whether `h` ends with `suffix`.
pub fn ends_with_str(h: &str, suffix: &str) -> (r: bool)
    ensures
        r == ends_with(h@, suffix@),
{
    let hc = to_chars(h);
    let sc = to_chars(suffix);
    if sc.len() > hc.len() {
        return false;
    }
    matches_at(&hc, &sc, hc.len() - sc.len())
}

/// The characters that carry Unicode's `White_Space` property.
pub open spec fn is_space(c: char) -> bool {
    let n = c as u32;
    ||| 0x9 <= n <= 0xd
    ||| n == 0x20
    ||| n == 0x85
    ||| n == 0xa0
    ||| n == 0x1680
    ||| 0x2000 <= n <= 0x200a
    ||| n == 0x2028
    ||| n == 0x2029
    ||| n == 0x202f
    ||| n == 0x205f
    ||| n == 0x3000
}

/// Whether `c` is white space.
pub fn is_whitespace(c: char) -> (r: bool)
    ensures
        r == is_space(c),
{
    let n: u32 = c as u32;
    (0x9 <= n && n <= 0xd) || n == 0x20 || n == 0x85 || n == 0xa0 || n == 0x1680 || (0x2000 <= n
        && n <= 0x200a) || n == 0x2028 || n == 0x2029 || n == 0x202f || n == 0x205f || n == 0x3000
}

/// `s` without the white space at its start.
pub open spec fn trim_start(s: Seq<char>) -> Seq<char>
    decreases s.len(),
{
    if s.len() > 0 && is_space(s[0]) {
        trim_start(s.drop_first())
    } else {
        s
    }
}

/// `s` without the white space at its end.
pub open spec fn trim_end(s: Seq<char>) -> Seq<char>
    decreases s.len(),
{
    if s.len() > 0 && is_space(s.last()) {
        trim_end(s.drop_last())
    } else {
        s
    }
}

/// `s` without the white space at either end.
pub open spec fn trim(s: Seq<char>) -> Seq<char> {
    trim_end(trim_start(s))
}

/// The bounds of `v[from..to]` without the white space at either end.
pub fn trim_bounds(v: &Vec<char>, from: usize, to: usize) -> (r: (usize, usize))
    requires
        from <= to <= v@.len(),
    ensures
        from <= r.0 <= r.1 <= to,
        v@.subrange(r.0 as int, r.1 as int) == trim(v@.subrange(from as int, to as int)),
{
    let mut a: usize = from;
    while a < to && is_whitespace(v[a])
        invariant
            from <= a <= to <= v@.len(),
            trim_start(v@.subrange(a as int, to as int)) == trim_start(
                v@.subrange(from as int, to as int),
            ),
        decreases to - a,
    {
        assert(v@.subrange(a as int, to as int).drop_first() =~= v@.subrange(a + 1, to as int));
        a = a + 1;
    }
    assert(trim_start(v@.subrange(a as int, to as int)) == v@.subrange(a as int, to as int));
    let mut b: usize = to;
    while b > a && is_whitespace(v[b - 1])
        invariant
            from <= a <= b <= to <= v@.len(),
            trim_end(v@.subrange(a as int, b as int)) == trim_end(v@.subrange(a as int, to as int)),
        decreases b,
    {
        assert(v@.subrange(a as int, b as int).drop_last() =~= v@.subrange(a as int, b - 1));
        b = b - 1;
    }
    (a, b)
}

/// `s` without the white space at either end.
pub fn trim_str(s: &str) -> (r: String)
    ensures
        r@ == trim(s@),
{
    let v = to_chars(s);
    let (a, b) = trim_bounds(&v, 0, v.len());
    assert(v@.subrange(0, v@.len() as int) =~= v@);
    slice_text(&v, a, b)
}

/// The decimal digit `d`.
pub open spec fn digit(d: int) -> char {
    (48 + d) as char
}

/// The decimal numeral of `n`, without leading zeros.
pub open spec fn dec(n: int) -> Seq<char>
    decreases n,
{
    if n < 10 {
        seq![digit(n)]
    } else {
        dec(n / 10).push(digit(n % 10))
    }
}

/// The decimal digit `d`.
pub fn digit_char(d: u64) -> (r: char)
    requires
        d < 10,
    ensures
        r == digit(d as int),
{
    match d {
        0 => '0',
        1 => '1',
        2 => '2',
        3 => '3',
        4 => '4',
        5 => '5',
        6 => '6',
        7 => '7',
        8 => '8',
        _ => '9',
    }
}

/// The decimal numeral of `n`, without leading zeros.
pub fn dec_text(n: u64) -> (r: String)
    ensures
        r@ == dec(n as int),
    decreases n,
{
    if n < 10 {
        let mut s = String::new();
        s.push(digit_char(n));
        assert(s@ =~= seq![digit(n as int)]);
        s
    } else {
        let mut s = dec_text(n / 10);
        s.push(digit_char(n % 10));
        s
    }
}

/// `s` with zeros before it, up to a length of `width`.
pub open spec fn zero_pad(s: Seq<char>, width: nat) -> Seq<char> {
    if s.len() >= width {
        s
    } else {
        Seq::new((width - s.len()) as nat, |i: int| '0') + s
    }
}

/// The decimal numeral of `n`, with leading zeros up to a length of `width`.
pub fn dec_padded(n: u64, width: usize) -> (r: String)
    ensures
        r@ == zero_pad(dec(n as int), width as nat),
{
    let s = dec_text(n);
    let len: usize = s.as_str().unicode_len();
    let mut out = String::new();
    let mut k: usize = len;
    while k < width
        invariant
            len == s@.len(),
            len <= k,
            k <= width || k == len,
            out@ == Seq::new((k - len) as nat, |i: int| '0'),
        decreases width - k,
    {
        out.push('0');
        k = k + 1;
        assert(out@ =~= Seq::new((k - len) as nat, |i: int| '0'));
    }
    out.append(s.as_str());
    proof {
        if s@.len() >= width {
            assert(out@ =~= s@);
        }
    }
    out
}

/// The strings of `parts`, with `sep` between each two.
pub open spec fn join(parts: Seq<Seq<char>>, sep: Seq<char>) -> Seq<char>
    decreases parts.len(),
{
    if parts.len() == 0 {
        Seq::empty()
    } else if parts.len() == 1 {
        parts[0]
    } else {
        join(parts.drop_last(), sep) + sep + parts.last()
    }
}

/// The strings of `parts`, with `sep` between each two.
pub fn join_strings(parts: &Vec<String>, sep: &str) -> (r: String)
    ensures
        r@ == join(texts(parts@), sep@),
{
    let mut out = String::new();
    let mut i: usize = 0;
    while i < parts.len()
        invariant
            i <= parts@.len(),
            out@ == join(texts(parts@).take(i as int), sep@),
        decreases parts.len() - i,
    {
        if i > 0 {
            out.append(sep);
        }
        out.append(parts[i].as_str());
        proof {
            let next = texts(parts@).take(i + 1);
            assert(next.drop_last() =~= texts(parts@).take(i as int));
            if i == 0 {
                assert(out@ =~= next[0]);
            }
        }
        i = i + 1;
    }
    assert(texts(parts@).take(parts@.len() as int) =~= texts(parts@));
    out
}

/// The first `n` characters of `s`, or all of them.
pub open spec fn take_chars(s: Seq<char>, n: int) -> Seq<char> {
    if s.len() <= n {
        s
    } else {
        s.take(n)
    }
}

/// The first `n` characters of `s`, or all of them.
pub fn take_text(s: &str, n: usize) -> (r: String)
    ensures
        r@ == take_chars(s@, n as int),
{
    let v = to_chars(s);
    if v.len() <= n {
        owned(s)
    } else {
        assert(v@.subrange(0, n as int) =~= v@.take(n as int));
        slice_text(&v, 0, n)
    }
}

/// The lines of `s` from position `i` on, without their line ends; a last line that is
/// empty does not count.
pub open spec fn lines_from(s: Seq<char>, i: int) -> Seq<Seq<char>>
    decreases s.len() - i,
{
    if i < 0 || i >= s.len() {
        Seq::empty()
    } else {
        proof {
            lemma_find_from(s, "\n"@, i);
            reveal_strlit("\n");
        }
        match find_from(s, "\n"@, i) {
            None => seq![s.skip(i)],
            Some(p) => seq![
                if p > i && s[p - 1] == '\r' {
                    s.subrange(i, p - 1)
                } else {
                    s.subrange(i, p)
                },
            ] + lines_from(s, p + 1),
        }
    }
}

/// The lines of a text, without their line ends.
pub fn split_lines(s: &str) -> (r: Vec<String>)
    ensures
        texts(r@) == lines_from(s@, 0),
{
    let v = to_chars(s);
    let nl = to_chars("\n");
    let n: usize = v.len();
    proof {
        reveal_strlit("\n");
    }
    let mut out: Vec<String> = Vec::new();
    let mut i: usize = 0;
    assert(texts(out@) =~= Seq::empty());
    assert(texts(out@) + lines_from(v@, 0) =~= lines_from(v@, 0));
    while i < n
        invariant
            i <= n,
            n == v@.len(),
            v@ == s@,
            nl@ == "\n"@,
            nl@.len() == 1,
            texts(out@) + lines_from(v@, i as int) == lines_from(v@, 0),
        decreases n - i,
    {
        let ghost before = texts(out@);
        match find(&v, &nl, i) {
            None => {
                out.push(slice_text(&v, i, n));
                assert(texts(out@) =~= before.push(v@.skip(i as int)));
                assert(texts(out@) =~= before + lines_from(v@, i as int));
                assert(texts(out@) + lines_from(v@, n as int) =~= texts(out@));
                i = n;
            },
            Some(p) => {
                let e: usize = if p > i && v[p - 1] == '\r' {
                    p - 1
                } else {
                    p
                };
                out.push(slice_text(&v, i, e));
                assert(texts(out@) =~= before.push(v@.subrange(i as int, e as int)));
                assert(texts(out@) + lines_from(v@, p + 1) =~= before + lines_from(v@, i as int));
                i = p + 1;
            },
        }
    }
    assert(texts(out@) + Seq::<Seq<char>>::empty() =~= texts(out@));
    out
}

/// `s` from position `i` on, with each occurrence of `old` replaced; occurrences are found
/// from the left and do not overlap.
pub open spec fn replaced_from(s: Seq<char>, old: Seq<char>, new: Seq<char>, i: int) -> Seq<char>
    decreases s.len() - i,
{
    if i < 0 || i > s.len() || old.len() == 0 {
        Seq::empty()
    } else {
        proof {
            lemma_find_from(s, old, i);
        }
        match find_from(s, old, i) {
            None => s.skip(i),
            Some(p) => s.subrange(i, p) + new + replaced_from(s, old, new, p + old.len()),
        }
    }
}

/// How often `old` occurs in `s` from position `i` on, without overlap.
pub open spec fn occurrences(s: Seq<char>, old: Seq<char>, i: int) -> int
    decreases s.len() - i,
{
    if i < 0 || i > s.len() || old.len() == 0 {
        0
    } else {
        proof {
            lemma_find_from(s, old, i);
        }
        match find_from(s, old, i) {
            None => 0,
            Some(p) => 1 + occurrences(s, old, p + old.len()),
        }
    }
}

/// `s` with each occurrence of `old` replaced by `new`, and how many there are.
pub fn replace_all(s: &str, old: &str, new: &str) -> (r: (String, usize))
    requires
        old@.len() > 0,
    ensures
        r.0@ == replaced_from(s@, old@, new@, 0),
        r.1 == occurrences(s@, old@, 0),
        r.1 <= s@.len(),
{
    let v = to_chars(s);
    let o = to_chars(old);
    let n: usize = v.len();
    let mut out = String::new();
    let mut count: usize = 0;
    let mut i: usize = 0;
    assert(out@ + replaced_from(v@, o@, new@, 0) =~= replaced_from(v@, o@, new@, 0));
    while i <= n
        invariant
            i <= n,
            n == v@.len(),
            v@ == s@,
            o@ == old@,
            o@.len() > 0,
            count <= i,
            count + occurrences(v@, o@, i as int) == occurrences(s@, old@, 0),
            out@ + replaced_from(v@, o@, new@, i as int) == replaced_from(s@, old@, new@, 0),
        decreases n - i,
    {
        let ghost before = out@;
        match find(&v, &o, i) {
            None => {
                out.append(slice_text(&v, i, n).as_str());
                assert(out@ =~= before + v@.skip(i as int));
                return (out, count);
            },
            Some(p) => {
                proof {
                    lemma_find_from(v@, o@, i as int);
                }
                out.append(slice_text(&v, i, p).as_str());
                out.append(new);
                assert(out@ + replaced_from(v@, o@, new@, p + o@.len()) =~= before + replaced_from(
                    v@,
                    o@,
                    new@,
                    i as int,
                ));
                count = count + 1;
                i = p + o.len();
            },
        }
    }
    (out, count)
}

/// A replacement changes the length by as much for each occurrence, and by nothing where
/// there is none.
pub proof fn lemma_replaced_length(s: Seq<char>, old: Seq<char>, new: Seq<char>, i: int)
    requires
        old.len() > 0,
        0 <= i <= s.len(),
    ensures
        replaced_from(s, old, new, i).len() == s.len() - i + occurrences(s, old, i) * (new.len()
            - old.len()),
        occurrences(s, old, i) == 0 ==> replaced_from(s, old, new, i) == s.skip(i),
        occurrences(s, old, i) >= 0,
        (occurrences(s, old, i) == 0) == (find_from(s, old, i) is None),
    decreases s.len() - i,
{
    lemma_find_from(s, old, i);
    match find_from(s, old, i) {
        None => {
            assert(occurrences(s, old, i) == 0);
            assert(0 * (new.len() - old.len()) == 0) by (nonlinear_arith);
        },
        Some(p) => {
            let q = p + old.len();
            lemma_replaced_length(s, old, new, q);
            let k = occurrences(s, old, q);
            let d = new.len() - old.len();
            assert((1 + k) * d == d + k * d) by (nonlinear_arith);
        },
    }
}

/// The decimal text of a signed number.
pub open spec fn signed_dec(n: int) -> Seq<char> {
    if n < 0 {
        "-"@ + dec(-n)
    } else {
        dec(n)
    }
}

/// The decimal text of a signed number.
pub fn signed_text(n: i32) -> (r: String)
    ensures
        r@ == signed_dec(n as int),
{
    if n < 0 {
        let mut s = owned("-");
        let m: i64 = -(n as i64);
        s.append(dec_text(m as u64).as_str());
        s
    } else {
        dec_text(n as u64)
    }
}

} // verus!
