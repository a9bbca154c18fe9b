//! What a repair of streamed arguments adds, and which repair is chosen.

use crate::args_fixer::{
    candidates, closed, closers, comma_cuts, control_escape, escaped, first_json, fixed, hex_digit,
    needs_repair, repair_count, repaired_call, scan, scan_step,
};
use crate::json::{json_parse, json_write, lemma_get_set, lemma_get_set_other, JsonV};
use crate::outgoing_doctor::arguments;
use vstd::prelude::*;

verus! {

/// Whether the text stays whole when it is closed: it does not end in the middle of an escape.
pub open spec fn stays_whole(s: Seq<char>) -> bool {
    closed(s).len() >= s.len() && closed(s).take(s.len() as int) == s
}

/// What closing adds to a text.
pub open spec fn tail(s: Seq<char>) -> Seq<char> {
    closed(s).skip(s.len() as int)
}

/// Whether the text ends inside a string.
pub open spec fn ends_in_string(s: Seq<char>) -> bool {
    tail(s).len() > 0 && tail(s)[0] == '"'
}

proof fn lemma_scan_of_prefix(s: Seq<char>, t: Seq<char>, n: int)
    requires
        0 <= n <= s.len(),
        n <= t.len(),
        forall|i: int| 0 <= i < n ==> #[trigger] s[i] == t[i],
    ensures
        scan(s, n) == scan(t, n),
    decreases n,
{
    if n > 0 {
        lemma_scan_of_prefix(s, t, n - 1);
        assert(s[n - 1] == t[n - 1]);
    }
}

proof fn lemma_one_more(s: Seq<char>, c: char)
    ensures
        scan(s.push(c), s.len() as int + 1) == scan_step(scan(s, s.len() as int), c),
{
    lemma_scan_of_prefix(s, s.push(c), s.len() as int);
}

proof fn lemma_escape_at_end(s: Seq<char>, n: int)
    requires
        0 <= n <= s.len(),
    ensures
        scan(s, n).escape ==> n > 0 && s[n - 1] == '\\' && scan(s, n).in_string,
    decreases n,
{
    if n > 0 {
        lemma_escape_at_end(s, n - 1);
    }
}

proof fn lemma_closers_are_brackets(open: Seq<char>)
    ensures
        closers(open).len() > 0 ==> closers(open)[0] != '"',
        closers(open).len() == open.len(),
    decreases open.len(),
{
    if open.len() > 0 {
        lemma_closers_are_brackets(open.drop_last());
    }
}

proof fn lemma_tail(s: Seq<char>)
    ensures
        stays_whole(s) == !scan(s, s.len() as int).escape,
        stays_whole(s) ==> tail(s) == (if scan(s, s.len() as int).in_string {
            seq!['"']
        } else {
            Seq::empty()
        }) + closers(scan(s, s.len() as int).open),
        stays_whole(s) ==> ends_in_string(s) == scan(s, s.len() as int).in_string,
{
    let end = scan(s, s.len() as int);
    lemma_escape_at_end(s, s.len() as int);
    lemma_closers_are_brackets(end.open);
    let q = if end.in_string {
        seq!['"']
    } else {
        Seq::empty()
    };
    if end.escape {
        assert(closed(s)[s.len() - 1] == '"');
        if stays_whole(s) {
            assert(closed(s).take(s.len() as int)[s.len() - 1] == s[s.len() - 1]);
        }
    } else {
        assert(closed(s) =~= s + (q + closers(end.open)));
        assert(closed(s).take(s.len() as int) =~= s);
        assert(tail(s) =~= q + closers(end.open));
    }
}

/// Nothing has to be closed before anything is opened.
pub proof fn lemma_nothing_to_close()
    ensures
        closed(Seq::empty()).len() == 0,
{
    assert(closers(Seq::empty()).len() == 0);
    assert(closed(Seq::empty()) =~= Seq::empty());
}

/// Outside a string, a bracket that opens is closed first of all, one that closes takes back
/// what was to be closed first, a quote opens a string, and nothing else has to be closed.
pub proof fn lemma_closing_outside_strings(s: Seq<char>, c: char)
    requires
        stays_whole(s),
        !ends_in_string(s),
    ensures
        stays_whole(s.push(c)),
        tail(s.push(c)) == if c == '{' {
            seq!['}'] + tail(s)
        } else if c == '[' {
            seq![']'] + tail(s)
        } else if c == '"' {
            seq!['"'] + tail(s)
        } else if (c == '}' || c == ']') && tail(s).len() > 0 {
            tail(s).drop_first()
        } else {
            tail(s)
        },
{
    let t = s.push(c);
    let at = scan(s, s.len() as int);
    lemma_one_more(s, c);
    lemma_tail(s);
    lemma_tail(t);
    lemma_escape_at_end(s, s.len() as int);
    lemma_closers_are_brackets(at.open);
    assert(tail(s) =~= closers(at.open));
    if c == '{' || c == '[' {
        assert(at.open.push(c).drop_last() =~= at.open);
        assert(closers(at.open.push(c)).drop_first() =~= closers(at.open));
        assert(tail(t) =~= closers(at.open.push(c)));
    } else if (c == '}' || c == ']') && at.open.len() > 0 {
        assert(closers(at.open).drop_first() =~= closers(at.open.drop_last()));
        assert(tail(t) =~= closers(at.open.drop_last()));
    } else if c == '"' {
        assert(tail(t) =~= seq!['"'] + tail(s));
    } else {
        assert(tail(t) =~= tail(s));
    }
}

/// Inside a string only a quote closes anything; a backslash at the end goes, and whatever
/// follows one is part of the string.
pub proof fn lemma_closing_inside_strings(s: Seq<char>, c: char)
    requires
        stays_whole(s),
        ends_in_string(s),
    ensures
        c == '"' ==> stays_whole(s.push(c)) && tail(s.push(c)) == tail(s).drop_first(),
        c != '"' && c != '\\' ==> stays_whole(s.push(c)) && tail(s.push(c)) == tail(s),
        closed(s.push('\\')) == closed(s),
        stays_whole(s.push('\\').push(c)) && tail(s.push('\\').push(c)) == tail(s),
{
    let at = scan(s, s.len() as int);
    let b = s.push('\\');
    lemma_one_more(s, c);
    lemma_one_more(s, '\\');
    lemma_one_more(b, c);
    lemma_tail(s);
    lemma_tail(s.push(c));
    lemma_tail(b.push(c));
    lemma_escape_at_end(s, s.len() as int);
    assert(b.drop_last() =~= s);
    assert(scan(b, b.len() as int).open == at.open);
    if c == '"' {
        assert(tail(s.push(c)) =~= tail(s).drop_first());
    }
}

// ---- control characters

/// The escape of a control character, as JSON writes it.
pub open spec fn json_escape(c: char) -> Seq<char> {
    let n = c as int;
    if n == 10 {
        seq!['\\', 'n']
    } else if n == 9 {
        seq!['\\', 't']
    } else if n == 13 {
        seq!['\\', 'r']
    } else {
        seq![
            '\\',
            'u',
            '0',
            '0',
            if n < 16 {
                '0'
            } else {
                '1'
            },
            if n % 16 < 10 {
                (48 + n % 16) as char
            } else {
                (87 + n % 16) as char
            },
        ]
    }
}

proof fn lemma_escaped_prefix(s: Seq<char>, t: Seq<char>, n: int)
    requires
        0 <= n <= s.len(),
        n <= t.len(),
        forall|i: int| 0 <= i < n ==> #[trigger] s[i] == t[i],
    ensures
        escaped(s, n) == escaped(t, n),
    decreases n,
{
    if n > 0 {
        lemma_escaped_prefix(s, t, n - 1);
        lemma_scan_of_prefix(s, t, n - 1);
        assert(s[n - 1] == t[n - 1]);
    }
}

/// A control character that stands bare inside a string is escaped, and every other character
/// stays as it is.
pub proof fn lemma_control_characters(s: Seq<char>, c: char)
    ensures
        escaped(Seq::empty(), 0).len() == 0,
        escaped(s.push(c), s.len() as int + 1) == escaped(s, s.len() as int) + if stays_whole(s)
            && ends_in_string(s) && (c as int) < 32 {
            json_escape(c)
        } else {
            seq![c]
        },
{
    let t = s.push(c);
    lemma_escaped_prefix(s, t, s.len() as int);
    lemma_scan_of_prefix(s, t, s.len() as int);
    lemma_tail(s);
    assert(t[s.len() as int] == c);
    if (c as int) < 32 {
        assert(control_escape(c) =~= json_escape(c)) by {
            let n = c as int;
            assert(n / 16 == 0 || n / 16 == 1);
            assert(hex_digit(0) == '0' && hex_digit(1) == '1');
        }
    }
}

proof fn lemma_no_control(c: char)
    requires
        c as int >= 32,
    ensures
        (c as u32) >= 32,
{
}

/// A text without control characters stays as it is.
pub proof fn lemma_clean_text_stays(s: Seq<char>, n: int)
    requires
        0 <= n <= s.len(),
        forall|i: int| 0 <= i < s.len() ==> (#[trigger] s[i]) as int >= 32,
    ensures
        escaped(s, n) == s.take(n),
    decreases n,
{
    if n > 0 {
        lemma_clean_text_stays(s, n - 1);
        assert(s[n - 1] as int >= 32);
        lemma_no_control(s[n - 1]);
        assert(escaped(s, n) == escaped(s, n - 1) + seq![s[n - 1]]);
        assert(s.take(n - 1) + seq![s[n - 1]] =~= s.take(n));
    } else {
        assert(s.take(0) =~= Seq::empty());
    }
}

// ---- which repair is chosen

proof fn lemma_first_json_shift(a: Seq<Seq<char>>, b: Seq<Seq<char>>, i: int)
    requires
        0 <= i <= b.len(),
    ensures
        first_json(a + b, a.len() + i) == first_json(b, i),
    decreases b.len() - i,
{
    if i < b.len() {
        assert((a + b)[a.len() + i] == b[i]);
        lemma_first_json_shift(a, b, i + 1);
    }
}

proof fn lemma_first_of(x: Seq<char>, b: Seq<Seq<char>>)
    ensures
        first_json(seq![x] + b, 0) == match json_parse(x) {
            Some(v) => Some(v),
            None => first_json(b, 0),
        },
{
    let s = seq![x] + b;
    assert(s[0] == x);
    lemma_first_json_shift(seq![x], b, 0);
}

proof fn lemma_last_cut(e: Seq<char>, n: int) -> (k: int)
    requires
        0 <= n <= e.len(),
    ensures
        -1 <= k < n,
        forall|j: int|
            k < j < n && #[trigger] e[j] == ',' ==> json_parse(closed(e.take(j))) is None,
        k >= 0 ==> e[k] == ',' && json_parse(closed(e.take(k))) is Some,
        first_json(comma_cuts(e, n), 0) == if k >= 0 {
            json_parse(closed(e.take(k)))
        } else {
            None
        },
    decreases n,
{
    if n > 0 {
        let c = closed(e.take(n - 1));
        if e[n - 1] == ',' && json_parse(c) is Some {
            lemma_first_of(c, comma_cuts(e, n - 1));
            n - 1
        } else {
            assert(comma_cuts(e, n) == comma_cuts(e, n - 1));
            lemma_last_cut(e, n - 1)
        }
    } else {
        -1
    }
}

/// Whether `v` is what is left of `e` when it is cut at its last comma at which the rest can be
/// closed and read.
pub open spec fn cut_at_last_comma(e: Seq<char>, v: JsonV) -> bool {
    exists|k: int|
        0 <= k < e.len() && #[trigger] e[k] == ',' && json_parse(closed(e.take(k))) == Some(v)
            && forall|j: int|
            k < j < e.len() && #[trigger] e[j] == ',' ==> json_parse(closed(e.take(j))) is None
}

/// Arguments that can be read stay as they are. Of those that cannot, the repair that changes
/// least is taken: control characters are escaped; where that is not enough, what is open is
/// closed; and where that is not enough, as little as possible is cut off. Where nothing helps
/// they stay as they are.
pub proof fn lemma_least_repair(s: Seq<char>)
    ensures
        ({
            let e = escaped(s, s.len() as int);
            if json_parse(s) is Some {
                fixed(s) == s
            } else if json_parse(e) is Some {
                fixed(s) == json_write(json_parse(e).unwrap())
            } else if json_parse(closed(e)) is Some {
                fixed(s) == json_write(json_parse(closed(e)).unwrap())
            } else if exists|k: int|
                0 <= k < e.len() && #[trigger] e[k] == ',' && json_parse(
                    closed(e.take(k)),
                ) is Some {
                exists|v: JsonV| cut_at_last_comma(e, v) && fixed(s) == #[trigger] json_write(v)
            } else {
                fixed(s) == s
            }
        }),
{
    let e = escaped(s, s.len() as int);
    let cuts = comma_cuts(e, e.len() as int);
    let c = closed(e);
    lemma_first_of(c, cuts);
    let k = lemma_last_cut(e, e.len() as int);
    let rest = seq![c] + cuts;
    if e != s {
        lemma_first_of(e, rest);
        assert(candidates(s) =~= seq![e] + rest);
    } else {
        assert(candidates(s) =~= rest);
    }
    if json_parse(s) is None && json_parse(e) is None && json_parse(c) is None {
        if let Some(v) = first_json(cuts, 0) {
            assert(e[k] == ',');
            assert(cut_at_last_comma(e, v));
            assert(fixed(s) == json_write(v));
        }
    }
}

/// A repair of a call changes its arguments and nothing else.
pub proof fn lemma_only_arguments_change(tc: JsonV)
    ensures
        forall|k: Seq<char>| k != "function"@ ==> #[trigger] repaired_call(tc).get(k) == tc.get(k),
        match tc.get("function"@) {
            Some(f) => repaired_call(tc).get("function"@) matches Some(g) && {
                &&& forall|k: Seq<char>| k != "arguments"@ ==> #[trigger] g.get(k) == f.get(k)
                &&& match f.get("arguments"@) {
                    Some(JsonV::Str(s)) => g.get("arguments"@) == Some(JsonV::Str(fixed(s))),
                    other => g.get("arguments"@) == other,
                }
            },
            None => repaired_call(tc).get("function"@) is None,
        },
        needs_repair(tc) <==> repaired_call(tc) != tc,
{
    if let Some(s) = arguments(tc) {
        let f = tc.at("function"@);
        let g = f.set("arguments"@, JsonV::Str(fixed(s)));
        if fixed(s) != s {
            let r = repaired_call(tc);
            lemma_get_set(f, "arguments"@, JsonV::Str(fixed(s)));
            lemma_get_set(tc, "function"@, g);
            assert forall|k: Seq<char>| k != "function"@ implies #[trigger] r.get(k) == tc.get(
                k,
            ) by {
                lemma_get_set_other(tc, "function"@, g, k);
            }
            assert forall|k: Seq<char>| k != "arguments"@ implies #[trigger] g.get(k) == f.get(
                k,
            ) by {
                lemma_get_set_other(f, "arguments"@, JsonV::Str(fixed(s)), k);
            }
            assert(g.get("arguments"@) != f.get("arguments"@));
        }
    }
}

/// As many calls count as repaired as were changed.
pub proof fn lemma_changes_are_counted(calls: Seq<JsonV>, n: int)
    requires
        0 <= n < calls.len(),
    ensures
        repair_count(calls, 0) == 0,
        repair_count(calls, n + 1) == repair_count(calls, n) + if repaired_call(calls[n])
            != calls[n] {
            1int
        } else {
            0
        },
{
    lemma_only_arguments_change(calls[n]);
}

} // verus!
