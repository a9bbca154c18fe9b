//! Which tool calls are found in a text, and what they hold.

use crate::json::{json_parse, json_write, lemma_get_entry, JsonV};
use crate::json::put;
use crate::stream_laws::is_call;
use crate::text::{dec, ends_with, find_from, is_at, lemma_find_from, rfind_from, starts_with, trim};
use crate::tool_call_rescue::{
    blocks, coerced, is_tool_name, parameters, parsed_block, rescued, rescued_call, rescued_calls,
    strip_first_break, strip_last_break,
};
use vstd::prelude::*;

verus! {

proof fn lemma_find_in_rest(s: Seq<char>, d: int, needle: Seq<char>, i: int)
    requires
        0 <= d <= s.len(),
        0 <= i,
    ensures
        find_from(s, needle, d + i) == match find_from(s.skip(d), needle, i) {
            Some(p) => Some(p + d),
            None => None,
        },
    decreases s.len() - d - i + 1,
{
    let t = s.skip(d);
    if i + needle.len() <= t.len() {
        assert(s.subrange(d + i, d + i + needle.len()) =~= t.subrange(i, i + needle.len()));
        if !is_at(t, needle, i) {
            lemma_find_in_rest(s, d, needle, i + 1);
        }
    }
}

proof fn lemma_blocks_in_rest(s: Seq<char>, d: int, i: int)
    requires
        0 <= d <= s.len(),
        0 <= i,
    ensures
        blocks(s, d + i) == blocks(s.skip(d), i),
    decreases s.len() - d - i,
{
    let t = s.skip(d);
    reveal_strlit("<tool_call>");
    reveal_strlit("</tool_call>");
    if i <= t.len() {
        lemma_find_in_rest(s, d, "<tool_call>"@, i);
        lemma_find_from(t, "<tool_call>"@, i);
        if let Some(p) = find_from(t, "<tool_call>"@, i) {
            let a = p + "<tool_call>"@.len();
            lemma_find_in_rest(s, d, "</tool_call>"@, a);
            lemma_find_from(t, "</tool_call>"@, a);
            if let Some(e) = find_from(t, "</tool_call>"@, a) {
                lemma_blocks_in_rest(s, d, e + "</tool_call>"@.len());
                assert(s.subrange(d + a, d + e) =~= t.subrange(a, e));
            }
        }
    }
}

/// What stands between the first opening tag and the next closing tag is the first block, and
/// the text behind it has the others.
pub proof fn lemma_first_block(before: Seq<char>, body: Seq<char>, rest: Seq<char>)
    requires
        find_from(before + "<tool_call>"@ + body + "</tool_call>"@ + rest, "<tool_call>"@, 0)
            == Some(before.len() as int),
        find_from(body + "</tool_call>"@ + rest, "</tool_call>"@, 0) == Some(body.len() as int),
    ensures
        blocks(before + "<tool_call>"@ + body + "</tool_call>"@ + rest, 0) == seq![body] + blocks(
            rest,
            0,
        ),
{
    let s = before + "<tool_call>"@ + body + "</tool_call>"@ + rest;
    let a = before.len() + "<tool_call>"@.len();
    let e = a + body.len();
    let z = e + "</tool_call>"@.len();
    reveal_strlit("<tool_call>");
    reveal_strlit("</tool_call>");
    assert(s.skip(a as int) =~= body + "</tool_call>"@ + rest);
    lemma_find_in_rest(s, a as int, "</tool_call>"@, 0);
    assert(s.subrange(a as int, e as int) =~= body);
    assert(s.skip(z as int) =~= rest);
    lemma_blocks_in_rest(s, z as int, 0);
}

/// A call that is opened and never closed is none.
pub proof fn lemma_cut_off_block(before: Seq<char>, rest: Seq<char>)
    requires
        find_from(before + "<tool_call>"@ + rest, "<tool_call>"@, 0) == Some(before.len() as int),
        find_from(rest, "</tool_call>"@, 0) is None,
    ensures
        blocks(before + "<tool_call>"@ + rest, 0).len() == 0,
{
    let s = before + "<tool_call>"@ + rest;
    let a = before.len() + "<tool_call>"@.len();
    assert(s.skip(a as int) =~= rest);
    lemma_find_in_rest(s, a as int, "</tool_call>"@, 0);
}

proof fn lemma_parameters_in_rest(s: Seq<char>, d: int, i: int, acc: Seq<(Seq<char>, JsonV)>)
    requires
        0 <= d <= s.len(),
        0 <= i,
    ensures
        parameters(s, d + i, acc) == parameters(s.skip(d), i, acc),
    decreases s.len() - d - i,
{
    let t = s.skip(d);
    reveal_strlit("<parameter=");
    reveal_strlit("</parameter>");
    reveal_strlit(">");
    if i <= t.len() {
        lemma_find_in_rest(s, d, "<parameter="@, i);
        lemma_find_from(t, "<parameter="@, i);
        if let Some(p) = find_from(t, "<parameter="@, i) {
            let a = p + "<parameter="@.len();
            lemma_find_in_rest(s, d, ">"@, a);
            lemma_find_from(t, ">"@, a);
            if let Some(e) = find_from(t, ">"@, a) {
                lemma_find_in_rest(s, d, "</parameter>"@, e + 1);
                lemma_find_from(t, "</parameter>"@, e + 1);
                if let Some(c) = find_from(t, "</parameter>"@, e + 1) {
                    assert(s.subrange(d + a, d + e) =~= t.subrange(a, e));
                    assert(s.subrange(d + e + 1, d + c) =~= t.subrange(e + 1, c));
                    let next = put(
                        acc,
                        trim(t.subrange(a, e)),
                        coerced(strip_last_break(strip_first_break(t.subrange(e + 1, c)))),
                    );
                    lemma_parameters_in_rest(s, d, c + "</parameter>"@.len(), next);
                }
            }
        }
    }
}

/// A parameter adds its value under its name, and the text behind it has the others.
pub proof fn lemma_first_parameter(
    before: Seq<char>,
    name: Seq<char>,
    value: Seq<char>,
    rest: Seq<char>,
    acc: Seq<(Seq<char>, JsonV)>,
)
    requires
        find_from(
            before + "<parameter="@ + name + ">"@ + value + "</parameter>"@ + rest,
            "<parameter="@,
            0,
        ) == Some(before.len() as int),
        find_from(name + ">"@ + value + "</parameter>"@ + rest, ">"@, 0) == Some(name.len() as int),
        find_from(value + "</parameter>"@ + rest, "</parameter>"@, 0) == Some(value.len() as int),
    ensures
        parameters(
            before + "<parameter="@ + name + ">"@ + value + "</parameter>"@ + rest,
            0,
            acc,
        ) == parameters(
            rest,
            0,
            put(acc, trim(name), coerced(strip_last_break(strip_first_break(value)))),
        ),
{
    let s = before + "<parameter="@ + name + ">"@ + value + "</parameter>"@ + rest;
    reveal_strlit(">");
    let a = (before.len() + "<parameter="@.len()) as int;
    let e = a + name.len();
    let c = e + 1 + value.len();
    let z = c + "</parameter>"@.len();
    assert(s.skip(a) =~= name + ">"@ + value + "</parameter>"@ + rest);
    lemma_find_in_rest(s, a, ">"@, 0);
    assert(s.skip(e + 1) =~= value + "</parameter>"@ + rest);
    lemma_find_in_rest(s, e + 1, "</parameter>"@, 0);
    assert(s.subrange(a, e) =~= name);
    assert(s.subrange(e + 1, c) =~= value);
    assert(s.skip(z) =~= rest);
    let next = put(acc, trim(name), coerced(strip_last_break(strip_first_break(value))));
    lemma_parameters_in_rest(s, z, 0, next);
}

/// One line break goes from each end of a value, and nothing else.
pub proof fn lemma_breaks_around(value: Seq<char>)
    ensures
        strip_first_break(seq!['\n'] + value) == value,
        strip_first_break(seq!['\r', '\n'] + value) == value,
        value.len() > 0 && value[0] != '\n' && value[0] != '\r' ==> strip_first_break(value)
            == value,
        strip_last_break(value + seq!['\r', '\n']) == value,
        value.len() > 0 && value.last() != '\r' ==> strip_last_break(value + seq!['\n']) == value,
        value.len() > 0 && value.last() != '\n' ==> strip_last_break(value) == value,
{
    reveal_strlit("\n");
    reveal_strlit("\r\n");
    assert("\r\n"@ =~= seq!['\r', '\n']);
    assert("\n"@ =~= seq!['\n']);
    let a = seq!['\n'] + value;
    assert(a.subrange(0, 1) =~= "\n"@);
    if starts_with(a, "\r\n"@) {
        assert(a.subrange(0, 2)[0] == '\r');
    }
    assert(a.skip(1) =~= value);
    let b = seq!['\r', '\n'] + value;
    assert(b.subrange(0, 2) =~= "\r\n"@);
    assert(b.skip(2) =~= value);
    if value.len() > 0 {
        if starts_with(value, "\r\n"@) {
            assert(value.subrange(0, 2)[0] == '\r');
        }
        if starts_with(value, "\n"@) {
            assert(value.subrange(0, 1)[0] == '\n');
        }
        let n = value.len() as int;
        if ends_with(value, "\r\n"@) {
            assert(value.subrange(n - 2, n)[1] == '\n');
        }
        if ends_with(value, "\n"@) {
            assert(value.subrange(n - 1, n)[0] == '\n');
        }
    }
    let c = value + seq!['\r', '\n'];
    let m = c.len() as int;
    assert(c.subrange(m - 2, m) =~= "\r\n"@);
    assert(c.take(m - 2) =~= value);
    let d = value + seq!['\n'];
    let k = d.len() as int;
    assert(d.subrange(k - 1, k) =~= "\n"@);
    if value.len() > 0 && value.last() != '\r' && ends_with(d, "\r\n"@) {
        assert(d.subrange(k - 2, k)[0] == '\r');
    }
    assert(d.take(k - 1) =~= value);
}

/// A value that reads as JSON and is no string stands for what it spells; every other for
/// itself, with the white space around it.
pub proof fn lemma_values(raw: Seq<char>)
    ensures
        json_parse(trim(raw)) is None ==> coerced(raw) == JsonV::Str(raw),
        json_parse(trim(raw)) matches Some(JsonV::Str(_)) ==> coerced(raw) == JsonV::Str(raw),
        json_parse(trim(raw)) matches Some(v) ==> !(v is Str) ==> coerced(raw) == v,
{
}

/// A block calls the function that it names with the parameters that it holds.
pub proof fn lemma_block_is_read(
    before: Seq<char>,
    name: Seq<char>,
    body: Seq<char>,
    after: Seq<char>,
)
    requires
        find_from(
            before + "<function="@ + name + ">"@ + body + "</function>"@ + after,
            "<function="@,
            0,
        ) == Some(before.len() as int),
        find_from(name + ">"@ + body + "</function>"@ + after, ">"@, 0) == Some(name.len() as int),
        rfind_from(
            body + "</function>"@ + after,
            "</function>"@,
            (body.len() + after.len()) as int,
        ) == Some(body.len() as int),
        is_tool_name(trim(name)),
    ensures
        parsed_block(before + "<function="@ + name + ">"@ + body + "</function>"@ + after)
            == match parameters(body, 0, Seq::empty()) {
            Some(args) => Some((trim(name), JsonV::Object(args))),
            None => None,
        },
{
    let s = before + "<function="@ + name + ">"@ + body + "</function>"@ + after;
    reveal_strlit(">");
    let a = (before.len() + "<function="@.len()) as int;
    let e = a + name.len();
    let rest = body + "</function>"@ + after;
    assert(s.skip(a) =~= name + ">"@ + body + "</function>"@ + after);
    lemma_find_in_rest(s, a, ">"@, 0);
    assert(s.subrange(a, e) =~= name);
    assert(s.skip(e + 1) =~= rest);
    assert(rest.take(body.len() as int) =~= body);
}

proof fn lemma_every_known_call(bs: Seq<Seq<char>>, known: Set<Seq<char>>, n: int, k: int)
    requires
        0 <= k < n <= bs.len(),
        parsed_block(bs[k]) matches Some((name, _)) && known.contains(name),
    ensures
        parsed_block(bs[k]) matches Some((name, args)) && rescued(bs, known, n).contains(
            (name, json_write(args)),
        ),
    decreases n,
{
    let (name, args) = parsed_block(bs[k]).unwrap();
    let x = (name, json_write(args));
    let t = rescued(bs, known, n);
    if k < n - 1 {
        lemma_every_known_call(bs, known, n - 1, k);
        let s = rescued(bs, known, n - 1);
        let i = choose|i: int| 0 <= i < s.len() && s[i] == x;
        assert(t[i] == x);
    } else {
        let s = rescued(bs, known, n - 1);
        if s.contains(x) {
        } else {
            assert(t.last() == x);
        }
    }
}

/// Every block that calls a known tool is found, with its arguments.
pub proof fn lemma_known_calls_are_found(text: Seq<char>, known: Set<Seq<char>>, k: int)
    requires
        0 <= k < blocks(text, 0).len(),
        parsed_block(blocks(text, 0)[k]) matches Some((name, _)) && known.contains(name),
    ensures
        parsed_block(blocks(text, 0)[k]) matches Some((name, args)) && exists|i: int|
            0 <= i < rescued_calls(text, known).len() && is_call(
                #[trigger] rescued_calls(text, known)[i],
                "rescued-"@ + dec(i),
                name,
                json_write(args),
            ),
{
    let bs = blocks(text, 0);
    let n = bs.len() as int;
    lemma_every_known_call(bs, known, n, k);
    let (name, args) = parsed_block(bs[k]).unwrap();
    let s = rescued(bs, known, n);
    let i = choose|i: int| 0 <= i < s.len() && s[i] == (name, json_write(args));
    lemma_found_call(i, name, json_write(args));
    assert(rescued_calls(text, known)[i] == rescued_call(i, name, json_write(args)));
}

proof fn lemma_found_call(i: int, name: Seq<char>, args: Seq<char>)
    ensures
        is_call(rescued_call(i, name, args), "rescued-"@ + dec(i), name, args),
{
    reveal_strlit("id");
    reveal_strlit("type");
    reveal_strlit("function");
    reveal_strlit("name");
    reveal_strlit("arguments");
    let o = rescued_call(i, name, args)->Object_0;
    assert(o[0].0.len() == 2 && o[1].0.len() == 4 && o[2].0.len() == 8);
    lemma_get_entry(o, 0);
    lemma_get_entry(o, 1);
    lemma_get_entry(o, 2);
    let f = o[2].1->Object_0;
    assert(f[0].0.len() == 4 && f[1].0.len() == 9);
    lemma_get_entry(f, 0);
    lemma_get_entry(f, 1);
}

/// Nothing is found but what a block calls: each call found is that of a block, and names a
/// known tool.
pub proof fn lemma_found_calls_stand_in_blocks(text: Seq<char>, known: Set<Seq<char>>, i: int)
    requires
        0 <= i < rescued_calls(text, known).len(),
    ensures
        exists|k: int|
            0 <= k < blocks(text, 0).len() && (parsed_block(
                #[trigger] blocks(text, 0)[k],
            ) matches Some((name, args)) && known.contains(name) && is_call(
                rescued_calls(text, known)[i],
                "rescued-"@ + dec(i),
                name,
                json_write(args),
            )),
{
    let bs = blocks(text, 0);
    let n = bs.len() as int;
    let k = lemma_found_in(bs, known, n, i);
    let (name, args) = parsed_block(bs[k]).unwrap();
    lemma_found_call(i, name, json_write(args));
    assert(rescued_calls(text, known)[i] == rescued_call(i, name, json_write(args)));
}

proof fn lemma_found_in(bs: Seq<Seq<char>>, known: Set<Seq<char>>, n: int, i: int) -> (k: int)
    requires
        0 <= n <= bs.len(),
        0 <= i < rescued(bs, known, n).len(),
    ensures
        0 <= k < n,
        parsed_block(bs[k]) matches Some((name, args)) && known.contains(name) && rescued(
            bs,
            known,
            n,
        )[i] == (name, json_write(args)),
    decreases n,
{
    if i < rescued(bs, known, n - 1).len() {
        lemma_found_in(bs, known, n - 1, i)
    } else {
        n - 1
    }
}

} // verus!
