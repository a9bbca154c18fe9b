//! Validates and, where possible, repairs the `arguments` text of streamed tool calls.
//!
//! The arguments arrive as a concatenation of pieces; a dropped piece can leave them
//! truncated. A few conservative repairs are tried; what cannot be repaired is passed on
//! unchanged, so that whoever parses it still sees the error.

use crate::json::{json_parse, json_write, jsons, Json, JsonV};
use crate::outgoing_doctor::arguments;
use crate::text::{from_chars, owned, same, slice_text, texts, to_chars};
use vstd::prelude::*;

verus! {

/// Where a scan of JSON text stands: inside a string or not, behind a backslash or not,
/// and the brackets that are open.
pub struct Scan {
    pub in_string: bool,
    pub escape: bool,
    pub open: Seq<char>,
}

/// One character further.
pub open spec fn scan_step(s: Scan, c: char) -> Scan {
    if s.in_string {
        if s.escape {
            Scan { escape: false, ..s }
        } else if c == '\\' {
            Scan { escape: true, ..s }
        } else if c == '"' {
            Scan { in_string: false, ..s }
        } else {
            s
        }
    } else if c == '"' {
        Scan { in_string: true, ..s }
    } else if c == '{' || c == '[' {
        Scan { open: s.open.push(c), ..s }
    } else if c == '}' || c == ']' {
        if s.open.len() > 0 {
            Scan { open: s.open.drop_last(), ..s }
        } else {
            s
        }
    } else {
        s
    }
}

/// Where a scan of the first `n` characters ends.
pub open spec fn scan(s: Seq<char>, n: int) -> Scan
    decreases n,
{
    if n <= 0 {
        Scan { in_string: false, escape: false, open: Seq::empty() }
    } else {
        scan_step(scan(s, n - 1), s[n - 1])
    }
}

/// The hexadecimal digit `d`.
pub open spec fn hex_digit(d: int) -> char {
    if d < 10 {
        (48 + d) as char
    } else {
        (87 + d) as char
    }
}

/// The escape of a control character.
pub open spec fn control_escape(c: char) -> Seq<char> {
    if c == '\n' {
        seq!['\\', 'n']
    } else if c == '\t' {
        seq!['\\', 't']
    } else if c == '\r' {
        seq!['\\', 'r']
    } else {
        seq!['\\', 'u', '0', '0', hex_digit(c as int / 16), hex_digit(c as int % 16)]
    }
}

/// The first `n` characters, with the bare control characters inside strings escaped.
pub open spec fn escaped(s: Seq<char>, n: int) -> Seq<char>
    decreases n,
{
    if n <= 0 {
        Seq::empty()
    } else {
        let at = scan(s, n - 1);
        let c = s[n - 1];
        escaped(s, n - 1) + (if at.in_string && !at.escape && (c as u32) < 0x20 {
            control_escape(c)
        } else {
            seq![c]
        })
    }
}

/// What closes the open brackets, the last first.
pub open spec fn closers(open: Seq<char>) -> Seq<char>
    decreases open.len(),
{
    if open.len() == 0 {
        Seq::empty()
    } else {
        seq![
            if open.last() == '{' {
                '}'
            } else {
                ']'
            },
        ] + closers(open.drop_last())
    }
}

/// The text with what it takes to close its string and its brackets; a lone backslash at
/// its end goes.
pub open spec fn closed(s: Seq<char>) -> Seq<char> {
    let end = scan(s, s.len() as int);
    (if end.escape {
        s.drop_last()
    } else {
        s
    }) + (if end.in_string {
        seq!['"']
    } else {
        Seq::empty()
    }) + closers(end.open)
}

/// The text cut at each of its first `n` commas' places and closed, the last first, where
/// the result is JSON.
pub open spec fn comma_cuts(s: Seq<char>, n: int) -> Seq<Seq<char>>
    decreases n,
{
    if n <= 0 {
        Seq::empty()
    } else if s[n - 1] == ',' && json_parse(closed(s.take(n - 1))) is Some {
        seq![closed(s.take(n - 1))] + comma_cuts(s, n - 1)
    } else {
        comma_cuts(s, n - 1)
    }
}

/// The repairs to try, the most likely first.
pub open spec fn candidates(s: Seq<char>) -> Seq<Seq<char>> {
    let e = escaped(s, s.len() as int);
    (if e != s {
        seq![e]
    } else {
        Seq::empty()
    }) + seq![closed(e)] + comma_cuts(e, e.len() as int)
}

/// What the first of the candidates from `i` on that is JSON spells.
pub open spec fn first_json(cs: Seq<Seq<char>>, i: int) -> Option<JsonV>
    decreases cs.len() - i,
{
    if i < 0 || i >= cs.len() {
        None
    } else {
        match json_parse(cs[i]) {
            Some(v) => Some(v),
            None => first_json(cs, i + 1),
        }
    }
}

/// What the first repair that is JSON spells.
pub open spec fn mended(s: Seq<char>) -> Option<JsonV> {
    first_json(candidates(s), 0)
}

/// The arguments, repaired where they are no JSON and a repair is found.
pub open spec fn fixed(s: Seq<char>) -> Seq<char> {
    if json_parse(s) is Some {
        s
    } else {
        match mended(s) {
            Some(v) => json_write(v),
            None => s,
        }
    }
}

/// Validates, and tries to repair, the arguments of a tool call. What comes back is the input
/// unchanged, or JSON where what a repair spells can be written and read again.
pub fn fix_args_string(args: &str) -> (r: String)
    ensures
        r@ == fixed(args@),
        json_parse(args@) is Some ==> r@ == args@,
        json_parse(args@) is None ==> match mended(args@) {
            Some(v) => v.rereads() ==> json_parse(r@) is Some,
            None => r@ == args@,
        },
{
    if Json::parse(args).is_some() {
        return owned(args);
    }
    let cs = repair_candidates(args);
    let mut i: usize = 0;
    while i < cs.len()
        invariant
            i <= cs@.len(),
            json_parse(args@) is None,
            texts(cs@) == candidates(args@),
            first_json(candidates(args@), 0) == first_json(candidates(args@), i as int),
        decreases cs.len() - i,
    {
        assert(texts(cs@)[i as int] == cs@[i as int]@);
        if let Some(v) = Json::parse(cs[i].as_str()) {
            return v.write();
        }
        i = i + 1;
    }
    owned(args)
}

/// The call with its arguments repaired.
pub open spec fn repaired_call(tc: JsonV) -> JsonV {
    match arguments(tc) {
        Some(s) => if fixed(s) == s {
            tc
        } else {
            tc.set("function"@, tc.at("function"@).set("arguments"@, JsonV::Str(fixed(s))))
        },
        None => tc,
    }
}

/// Whether a repair changes the call.
pub open spec fn needs_repair(tc: JsonV) -> bool {
    arguments(tc) matches Some(s) && fixed(s) != s
}

/// Repairs the arguments of a tool call in place; whether it changed them.
pub fn repair_tool_call(tc: &mut Json) -> (r: bool)
    ensures
        final(tc)@ == repaired_call(old(tc)@),
        r == needs_repair(old(tc)@),
{
    let (func, original) = match tc.get("function") {
        Some(f) => match f.str_at("arguments") {
            Some(s) => (f.clone(), owned(s)),
            None => return false,
        },
        None => return false,
    };
    let repaired = fix_args_string(original.as_str());
    if same(repaired.as_str(), original.as_str()) {
        return false;
    }
    let mut func = func;
    func.set("arguments", Json::Str(repaired));
    tc.set("function", func);
    true
}

/// How many of the first `n` calls need a repair.
pub open spec fn repair_count(cs: Seq<JsonV>, n: int) -> int
    decreases n,
{
    if n <= 0 {
        0
    } else {
        repair_count(cs, n - 1) + if needs_repair(cs[n - 1]) {
            1int
        } else {
            0int
        }
    }
}

/// Repairs a batch of tool calls; how many were changed.
pub fn repair_tool_calls(tool_calls: &mut Vec<Json>) -> (r: usize)
    ensures
        jsons(final(tool_calls)@) == jsons(old(tool_calls)@).map_values(
            |tc: JsonV| repaired_call(tc),
        ),
        r == repair_count(jsons(old(tool_calls)@), old(tool_calls)@.len() as int),
{
    let ghost before = jsons(tool_calls@);
    let mut count: usize = 0;
    let mut out: Vec<Json> = Vec::new();
    let mut i: usize = 0;
    let n: usize = tool_calls.len();
    while i < n
        invariant
            i <= n,
            n == tool_calls@.len(),
            before == jsons(tool_calls@),
            out@.len() == i,
            count <= i,
            count == repair_count(before, i as int),
            forall|j: int| 0 <= j < i ==> (#[trigger] out@[j])@ == repaired_call(before[j]),
        decreases n - i,
    {
        let mut tc = tool_calls[i].clone();
        assert(before[i as int] == tc@);
        if repair_tool_call(&mut tc) {
            count = count + 1;
        }
        out.push(tc);
        i = i + 1;
    }
    assert(jsons(out@) =~= before.map_values(|tc: JsonV| repaired_call(tc)));
    *tool_calls = out;
    count
}

/// The repairs to try, the most likely first: control characters escaped, then everything
/// closed, then cut at earlier and earlier commas.
pub fn repair_candidates(s: &str) -> (r: Vec<String>)
    ensures
        texts(r@) == candidates(s@),
{
    let mut out: Vec<String> = Vec::new();
    let e = escape_string_control_chars(s);
    let ghost want = candidates(s@);
    assert(texts(out@) =~= Seq::empty());
    if !same(e.as_str(), s) {
        out.push(e.clone());
        assert(texts(out@) =~= seq![e@]);
    }
    let ghost head = texts(out@);
    let c = append_missing_closers(e.as_str());
    let ghost before = out@;
    out.push(c);
    assert(texts(out@) =~= head + seq![c@]);
    let mut cuts = truncate_at_commas(e.as_str());
    let ghost tail = texts(cuts@);
    let ghost mid = texts(out@);
    let ghost parts = cuts@;
    let ghost front = out@;
    out.append(&mut cuts);
    assert(texts(out@) =~= mid + tail) by {
        assert(out@ =~= front + parts);
    }
    assert(texts(out@) =~= want);
    out
}

proof fn lemma_scan_open(s: Seq<char>, n: int)
    requires
        0 <= n <= s.len(),
    ensures
        forall|i: int|
            0 <= i < scan(s, n).open.len() ==> (#[trigger] scan(s, n).open[i] == '{' || scan(
                s,
                n,
            ).open[i] == '['),
        scan(s, n).open.len() <= n,
        scan(s, n).escape ==> scan(s, n).in_string && n > 0 && s[n - 1] == '\\',
    decreases n,
{
    if n > 0 {
        lemma_scan_open(s, n - 1);
    }
}

/// The text with what it takes to close its string and its brackets.
pub fn append_missing_closers(s: &str) -> (r: String)
    ensures
        r@ == closed(s@),
{
    let v = to_chars(s);
    let mut open: Vec<char> = Vec::new();
    let mut in_string = false;
    let mut escape = false;
    let mut i: usize = 0;
    while i < v.len()
        invariant
            i <= v@.len(),
            (Scan { in_string, escape, open: open@ }) == scan(v@, i as int),
        decreases v.len() - i,
    {
        let c = v[i];
        if in_string {
            if escape {
                escape = false;
            } else if c == '\\' {
                escape = true;
            } else if c == '"' {
                in_string = false;
            }
        } else if c == '"' {
            in_string = true;
        } else if c == '{' || c == '[' {
            open.push(c);
        } else if c == '}' || c == ']' {
            let ghost before = open@;
            let top = open.pop();
            proof {
                if before.len() > 0 {
                    assert(open@ =~= before.drop_last());
                }
            }
        }
        i = i + 1;
    }
    let ghost end = scan(v@, v@.len() as int);
    proof {
        lemma_scan_open(v@, v@.len() as int);
        assert(v@.subrange(0, v@.len() as int) =~= v@);
    }
    let mut out = if escape {
        assert(v@.subrange(0, v@.len() - 1) =~= v@.drop_last());
        slice_text(&v, 0, v.len() - 1)
    } else {
        slice_text(&v, 0, v.len())
    };
    let ghost base = out@;
    if in_string {
        out.push('"');
        assert(out@ =~= base + seq!['"']);
    } else {
        assert(out@ =~= base + Seq::<char>::empty());
    }
    let ghost quoted = out@;
    let mut k: usize = open.len();
    assert(open@.take(open@.len() as int) =~= open@);
    while k > 0
        invariant
            k <= open@.len(),
            out@ + closers(open@.take(k as int)) == quoted + closers(open@),
        decreases k,
    {
        let c = if open[k - 1] == '{' {
            '}'
        } else {
            ']'
        };
        let ghost top = open@.take(k as int);
        let ghost before = out@;
        assert(top.drop_last() =~= open@.take(k - 1));
        assert(top.last() == open@[k - 1]);
        out.push(c);
        assert(out@ + closers(open@.take(k - 1)) =~= before + closers(top));
        k = k - 1;
    }
    assert(open@.take(0) =~= Seq::empty());
    assert(out@ + Seq::<char>::empty() =~= out@);
    out
}

fn hex_char(d: u32) -> (r: char)
    requires
        d < 16,
    ensures
        r == hex_digit(d as int),
{
    if d < 10 {
        crate::text::digit_char(d as u64)
    } else {
        match d {
            10 => 'a',
            11 => 'b',
            12 => 'c',
            13 => 'd',
            14 => 'e',
            _ => 'f',
        }
    }
}

/// Appends the escape of a control character.
fn push_escape(out: &mut Vec<char>, c: char)
    requires
        (c as u32) < 0x20,
    ensures
        final(out)@ == old(out)@ + control_escape(c),
{
    let ghost before = out@;
    out.push('\\');
    if c == '\n' {
        out.push('n');
    } else if c == '\t' {
        out.push('t');
    } else if c == '\r' {
        out.push('r');
    } else {
        let n: u32 = c as u32;
        out.push('u');
        out.push('0');
        out.push('0');
        out.push(hex_char(n / 16));
        out.push(hex_char(n % 16));
    }
    assert(out@ =~= before + control_escape(c));
}

/// The text with the bare control characters inside strings escaped.
pub fn escape_string_control_chars(s: &str) -> (r: String)
    ensures
        r@ == escaped(s@, s@.len() as int),
{
    let v = to_chars(s);
    let mut out: Vec<char> = Vec::new();
    let mut in_string = false;
    let mut escape = false;
    let mut i: usize = 0;
    while i < v.len()
        invariant
            i <= v@.len(),
            in_string == scan(v@, i as int).in_string,
            escape == scan(v@, i as int).escape,
            out@ == escaped(v@, i as int),
        decreases v.len() - i,
    {
        let c = v[i];
        let ghost before = out@;
        proof {
            lemma_scan_open(v@, i as int);
        }
        if in_string && !escape && (c as u32) < 0x20 {
            push_escape(&mut out, c);
        } else {
            out.push(c);
            assert(out@ =~= before + seq![c]);
        }
        if in_string {
            if escape {
                escape = false;
            } else if c == '\\' {
                escape = true;
            } else if c == '"' {
                in_string = false;
            }
        } else if c == '"' {
            in_string = true;
        }
        i = i + 1;
    }
    from_chars(&out)
}

/// The text cut at each comma and closed, the last first, where the result is JSON.
pub fn truncate_at_commas(s: &str) -> (r: Vec<String>)
    ensures
        texts(r@) == comma_cuts(s@, s@.len() as int),
{
    let v = to_chars(s);
    let mut out: Vec<String> = Vec::new();
    let mut n: usize = v.len();
    assert(texts(out@) =~= Seq::empty());
    assert(texts(out@) + comma_cuts(v@, n as int) =~= comma_cuts(v@, n as int));
    while n > 0
        invariant
            n <= v@.len(),
            v@ == s@,
            texts(out@) + comma_cuts(v@, n as int) == comma_cuts(v@, v@.len() as int),
        decreases n,
    {
        if v[n - 1] == ',' {
            let prefix = slice_text(&v, 0, n - 1);
            assert(v@.subrange(0, n - 1) =~= v@.take(n - 1));
            let c = append_missing_closers(prefix.as_str());
            if Json::parse(c.as_str()).is_some() {
                let ghost before = texts(out@);
                out.push(c);
                assert(texts(out@) =~= before.push(c@));
                assert(texts(out@) + comma_cuts(v@, n - 1) =~= before + comma_cuts(
                    v@,
                    n as int,
                ));
            }
        }
        n = n - 1;
    }
    assert(texts(out@) + Seq::<Seq<char>>::empty() =~= texts(out@));
    out
}

proof fn lemma_scan_prefix(a: Seq<char>, b: Seq<char>, n: int)
    requires
        0 <= n <= a.len(),
        n <= b.len(),
        forall|i: int| 0 <= i < n ==> a[i] == b[i],
    ensures
        scan(a, n) == scan(b, n),
    decreases n,
{
    if n > 0 {
        lemma_scan_prefix(a, b, n - 1);
    }
}

proof fn lemma_closers_close(s: Seq<char>, n: int, open: Seq<char>)
    requires
        0 <= n <= s.len(),
        scan(s, n) == (Scan { in_string: false, escape: false, open }),
        s.skip(n) == closers(open),
    ensures
        scan(s, s.len() as int) == (Scan {
            in_string: false,
            escape: false,
            open: Seq::empty(),
        }),
    decreases open.len(),
{
    if open.len() == 0 {
        assert(s.skip(n).len() == s.len() - n);
        assert(open =~= Seq::empty());
    } else {
        let c = closers(open);
        assert(c.len() > 0);
        assert(s.skip(n).len() == s.len() - n);
        assert(s.skip(n)[0] == c[0]);
        assert(s[n] == c[0]);
        assert(s.skip(n + 1) =~= s.skip(n).drop_first());
        assert(c.drop_first() =~= closers(open.drop_last()));
        lemma_closers_close(s, n + 1, open.drop_last());
    }
}

/// A closed text ends outside of any string, with no bracket open.
pub proof fn lemma_closed_is_balanced(s: Seq<char>)
    ensures
        scan(closed(s), closed(s).len() as int) == (Scan {
            in_string: false,
            escape: false,
            open: Seq::empty(),
        }),
{
    let n = s.len() as int;
    let end = scan(s, n);
    let c = closed(s);
    lemma_scan_open(s, n);
    let m = if end.escape {
        n - 1
    } else {
        n
    };
    lemma_scan_prefix(s, c, m);
    let k = if end.in_string {
        m + 1
    } else {
        m
    };
    assert(c.skip(k) =~= closers(end.open));
    lemma_closers_close(c, k, end.open);
}

} // verus!
