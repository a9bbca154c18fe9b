//! The lines of a server-sent event stream.

use crate::text::{find_from, is_at, lemma_find_from, lines_from, matches_at, same, slice_text};
use crate::text::{split_lines, starts_with, texts, to_chars};
use vstd::prelude::*;
use vstd::utf8::{decode_utf8, valid_utf8};

verus! {

/// The text that `String::from_utf8_lossy` makes of bytes.
pub uninterp spec fn utf8_lossy(b: Seq<u8>) -> Seq<char>;

/// `String::from_utf8_lossy`: the result depends on the bytes alone, and of valid UTF-8 it
/// is the text that the bytes encode. Only sequences that are no UTF-8 are replaced, and none
/// of them reaches over a line end: it stands for itself, and what comes before it and what
/// comes after it are read apart. What stands for bytes that are no UTF-8 is not said.
#[verifier::external_body]
pub(crate) fn from_utf8_lossy(b: &[u8]) -> (r: String)
    ensures
        r@ == utf8_lossy(b@),
        valid_utf8(b@) ==> r@ == decode_utf8(b@),
        forall|i: int|
            0 < i <= b@.len() && b@[i - 1] == 10 ==> r@ == utf8_lossy(#[trigger] b@.take(i))
                + utf8_lossy(b@.skip(i)),
        forall|i: int|
            0 <= i < b@.len() && b@[i] == 10 ==> r@ == utf8_lossy(#[trigger] b@.take(i)).push('\n')
                + utf8_lossy(b@.skip(i + 1)),
{
    String::from_utf8_lossy(b).into_owned()
}

/// Whether a line carries data: more than nothing, and not the mark of the end.
pub open spec fn is_data(line: Seq<char>) -> bool {
    starts_with(line, "data: "@) && line.skip(6) != "[DONE]"@ && line.len() > 6
}

/// The data of the first `n` lines.
pub open spec fn data_of(lines: Seq<Seq<char>>, n: int) -> Seq<Seq<char>>
    decreases n,
{
    if n <= 0 {
        Seq::empty()
    } else if is_data(lines[n - 1]) {
        data_of(lines, n - 1).push(lines[n - 1].skip(6))
    } else {
        data_of(lines, n - 1)
    }
}

/// The data in a piece of a stream.
pub open spec fn payloads(text: Seq<char>) -> Seq<Seq<char>> {
    let lines = lines_from(text, 0);
    data_of(lines, lines.len() as int)
}

/// The data in a piece of a stream, given as text.
pub fn decode_sse_text(text: &str) -> (r: Vec<String>)
    ensures
        texts(r@) == payloads(text@),
{
    let lines = split_lines(text);
    let prefix = to_chars("data: ");
    let ghost lv = lines_from(text@, 0);
    let mut out: Vec<String> = Vec::new();
    let mut i: usize = 0;
    assert(texts(out@) =~= Seq::empty());
    proof {
        reveal_strlit("data: ");
    }
    while i < lines.len()
        invariant
            i <= lines@.len(),
            lv == texts(lines@),
            prefix@ == "data: "@,
            prefix@.len() == 6,
            texts(out@) == data_of(lv, i as int),
        decreases lines.len() - i,
    {
        assert(lv[i as int] == lines@[i as int]@);
        let v = to_chars(lines[i].as_str());
        if matches_at(&v, &prefix, 0) {
            let data = slice_text(&v, 6, v.len());
            assert(data@ =~= lv[i as int].skip(6));
            if !same(data.as_str(), "[DONE]") && v.len() > 6 {
                let ghost before = texts(out@);
                out.push(data);
                assert(texts(out@) =~= before.push(data@));
            }
        }
        i = i + 1;
    }
    out
}

/// The data in a piece of a stream. However the piece is cut after a line end, it is the data
/// of the first part and then that of the second.
pub fn decode_sse_chunk(chunk: &[u8]) -> (r: Vec<String>)
    ensures
        texts(r@) == payloads(utf8_lossy(chunk@)),
        valid_utf8(chunk@) ==> texts(r@) == payloads(decode_utf8(chunk@)),
        forall|i: int|
            0 < i <= chunk@.len() && chunk@[i - 1] == 10 ==> texts(r@) == payloads(
                utf8_lossy(#[trigger] chunk@.take(i)),
            ) + payloads(utf8_lossy(chunk@.skip(i))),
{
    let text = from_utf8_lossy(chunk);
    proof {
        assert forall|i: int| 0 < i <= chunk@.len() && chunk@[i - 1] == 10 implies payloads(text@)
            == payloads(utf8_lossy(#[trigger] chunk@.take(i))) + payloads(
            utf8_lossy(chunk@.skip(i)),
        ) by {
            let first = utf8_lossy(chunk@.take(i));
            let rest = utf8_lossy(chunk@.skip(i));
            let line = utf8_lossy(chunk@.take(i - 1)).push('\n');
            assert(chunk@.skip(i - 1 + 1) == chunk@.skip(i));
            assert(text@ == line + rest && text@ == first + rest);
            assert((line + rest).len() == (first + rest).len());
            assert(first[first.len() - 1] == text@[first.len() - 1]);
            assert(line[first.len() - 1] == text@[first.len() - 1]);
            lemma_pieces_join(first, rest);
        }
    }
    decode_sse_text(text.as_str())
}

/// No payload is empty, and none is the mark of the end.
pub proof fn lemma_payloads_carry_data(lines: Seq<Seq<char>>, n: int)
    requires
        0 <= n <= lines.len(),
    ensures
        forall|i: int|
            0 <= i < data_of(lines, n).len() ==> (#[trigger] data_of(lines, n)[i]).len() > 0
                && data_of(lines, n)[i] != "[DONE]"@,
    decreases n,
{
    if n > 0 {
        lemma_payloads_carry_data(lines, n - 1);
        let before = data_of(lines, n - 1);
        assert forall|i: int| 0 <= i < data_of(lines, n).len() implies (#[trigger] data_of(
            lines,
            n,
        )[i]).len() > 0 && data_of(lines, n)[i] != "[DONE]"@ by {
            if i < before.len() {
                assert(data_of(lines, n)[i] == before[i]);
            }
        }
    }
}

/// The next line end in the first of two texts is the next one in both together.
proof fn lemma_find_in_first(a: Seq<char>, b: Seq<char>, i: int)
    requires
        0 <= i < a.len(),
        a.last() == '\n',
    ensures
        find_from(a, "\n"@, i) is Some,
        find_from(a + b, "\n"@, i) == find_from(a, "\n"@, i),
        i <= find_from(a, "\n"@, i)->0 < a.len(),
    decreases a.len() - i,
{
    reveal_strlit("\n");
    assert((a + b).subrange(i, i + 1) =~= a.subrange(i, i + 1));
    if !is_at(a, "\n"@, i) {
        if i == a.len() - 1 {
            assert(a.subrange(i, i + 1) =~= "\n"@);
        }
        lemma_find_in_first(a, b, i + 1);
    }
}

/// A line end in the second of two texts is found behind the first.
proof fn lemma_find_in_second(a: Seq<char>, b: Seq<char>, i: int)
    requires
        0 <= i,
    ensures
        find_from(a + b, "\n"@, a.len() + i) == match find_from(b, "\n"@, i) {
            Some(p) => Some(a.len() + p),
            None => None,
        },
    decreases b.len() - i + 1,
{
    reveal_strlit("\n");
    if i < b.len() {
        assert((a + b).subrange(a.len() + i, a.len() + i + 1) =~= b.subrange(i, i + 1));
        if !is_at(b, "\n"@, i) {
            lemma_find_in_second(a, b, i + 1);
        }
    }
}

proof fn lemma_lines_of_second(a: Seq<char>, b: Seq<char>, i: int)
    requires
        0 <= i,
        a.len() > 0,
        a.last() == '\n',
    ensures
        lines_from(a + b, a.len() + i) == lines_from(b, i),
    decreases b.len() - i,
{
    if i < b.len() {
        lemma_find_in_second(a, b, i);
        lemma_find_from(b, "\n"@, i);
        reveal_strlit("\n");
        match find_from(b, "\n"@, i) {
            None => {
                assert((a + b).skip(a.len() + i) =~= b.skip(i));
            },
            Some(p) => {
                lemma_lines_of_second(a, b, p + 1);
                assert((a + b).subrange(a.len() + i, a.len() + p) =~= b.subrange(i, p));
                if p > i {
                    assert((a + b)[a.len() + p - 1] == b[p - 1]);
                    assert((a + b).subrange(a.len() + i, a.len() + p - 1) =~= b.subrange(i, p - 1));
                }
            },
        }
    }
}

proof fn lemma_lines_of_both(a: Seq<char>, b: Seq<char>, i: int)
    requires
        0 <= i <= a.len(),
        a.len() > 0,
        a.last() == '\n',
    ensures
        lines_from(a + b, i) == lines_from(a, i) + lines_from(b, 0),
    decreases a.len() - i,
{
    if i == a.len() {
        lemma_lines_of_second(a, b, 0);
        assert(lines_from(a, i) + lines_from(b, 0) =~= lines_from(b, 0));
    } else {
        lemma_find_in_first(a, b, i);
        let p = find_from(a, "\n"@, i)->0;
        lemma_lines_of_both(a, b, p + 1);
        assert((a + b).subrange(i, p) =~= a.subrange(i, p));
        if p > i {
            assert((a + b).subrange(i, p - 1) =~= a.subrange(i, p - 1));
        }
        assert(lines_from(a + b, i) =~= lines_from(a, i) + lines_from(b, 0));
    }
}

proof fn lemma_data_of_both(x: Seq<Seq<char>>, y: Seq<Seq<char>>, n: int)
    requires
        0 <= n <= y.len(),
    ensures
        data_of(x + y, x.len() + n) == data_of(x, x.len() as int) + data_of(y, n),
    decreases n,
{
    if n == 0 {
        lemma_data_of_first(x, y, x.len() as int);
        assert(data_of(x, x.len() as int) + data_of(y, 0) =~= data_of(x, x.len() as int));
    } else {
        lemma_data_of_both(x, y, n - 1);
        assert((x + y)[x.len() + n - 1] == y[n - 1]);
        assert(data_of(x + y, x.len() + n) =~= data_of(x, x.len() as int) + data_of(y, n));
    }
}

proof fn lemma_data_of_first(x: Seq<Seq<char>>, y: Seq<Seq<char>>, n: int)
    requires
        0 <= n <= x.len(),
    ensures
        data_of(x + y, n) == data_of(x, n),
    decreases n,
{
    if n > 0 {
        lemma_data_of_first(x, y, n - 1);
    }
}

/// A piece of a stream that ends with a line, and the piece after it, together carry the data
/// of the first and then the data of the second.
pub proof fn lemma_pieces_join(a: Seq<char>, b: Seq<char>)
    requires
        a.len() > 0,
        a.last() == '\n',
    ensures
        payloads(a + b) == payloads(a) + payloads(b),
{
    lemma_lines_of_both(a, b, 0);
    let x = lines_from(a, 0);
    let y = lines_from(b, 0);
    lemma_data_of_both(x, y, y.len() as int);
}

} // verus!
