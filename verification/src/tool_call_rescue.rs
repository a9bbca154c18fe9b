//! Finds the tool calls that a model wrote into its reasoning text.
//!
//! The format is that of the chat templates that emit
//! `<tool_call><function=NAME><parameter=KEY>value</parameter></function></tool_call>`.
//! Only well-formed blocks that name a known tool count; a call that occurs twice counts
//! once.

use crate::json::{json_parse, json_write, obj2, obj2_v, obj3, obj3_v};
use crate::json::{fields, jsons, object_of, put, put_field, Json, JsonV};
use crate::string_set::StringSet;
use crate::text::{alphanumeric, dec, dec_text, ends_with, find, find_from, is_alphanumeric};
use crate::text::{lemma_find_from, matches_at, owned, rfind, rfind_from, same};
use crate::text::{slice_text, starts_with, to_chars, trim, trim_bounds, trim_str};
use vstd::prelude::*;

verus! {

/// The texts between `<tool_call>` and `</tool_call>`, from position `i` on.
pub open spec fn blocks(s: Seq<char>, i: int) -> Seq<Seq<char>>
    decreases s.len() - i,
{
    if i < 0 || i > s.len() {
        Seq::empty()
    } else {
        proof {
            lemma_find_from(s, "<tool_call>"@, i);
        }
        match find_from(s, "<tool_call>"@, i) {
            None => Seq::empty(),
            Some(p) => {
                let a = p + "<tool_call>"@.len();
                proof {
                    reveal_strlit("<tool_call>");
                    lemma_find_from(s, "</tool_call>"@, a);
                }
                match find_from(s, "</tool_call>"@, a) {
                    None => Seq::empty(),
                    Some(e) => seq![s.subrange(a, e)] + blocks(s, e + "</tool_call>"@.len()),
                }
            },
        }
    }
}

/// Whether the text can name a tool.
pub open spec fn is_tool_name(s: Seq<char>) -> bool {
    s.len() > 0 && forall|i: int|
        0 <= i < s.len() ==> alphanumeric(#[trigger] s[i]) || s[i] == '_' || s[i] == '-'
}

/// The text without a line break at its start.
pub open spec fn strip_first_break(s: Seq<char>) -> Seq<char> {
    if starts_with(s, "\r\n"@) {
        s.skip(2)
    } else if starts_with(s, "\n"@) {
        s.skip(1)
    } else {
        s
    }
}

/// The text without a line break at its end.
pub open spec fn strip_last_break(s: Seq<char>) -> Seq<char> {
    if ends_with(s, "\r\n"@) {
        s.take(s.len() - 2)
    } else if ends_with(s, "\n"@) {
        s.take(s.len() - 1)
    } else {
        s
    }
}

/// The value that a parameter's text stands for: JSON that is no string, or the text.
pub open spec fn coerced(raw: Seq<char>) -> JsonV {
    match json_parse(trim(raw)) {
        Some(v) => if v is Str {
            JsonV::Str(raw)
        } else {
            v
        },
        None => JsonV::Str(raw),
    }
}

/// The parameters from position `i` on, added to `acc`; nothing where one is cut off.
pub open spec fn parameters(s: Seq<char>, i: int, acc: Seq<(Seq<char>, JsonV)>) -> Option<
    Seq<(Seq<char>, JsonV)>,
>
    decreases s.len() - i,
{
    if i < 0 || i > s.len() {
        Some(acc)
    } else {
        proof {
            lemma_find_from(s, "<parameter="@, i);
        }
        match find_from(s, "<parameter="@, i) {
            None => Some(acc),
            Some(p) => {
                let a = p + "<parameter="@.len();
                proof {
                    lemma_find_from(s, ">"@, a);
                }
                match find_from(s, ">"@, a) {
                    None => None,
                    Some(e) => {
                        proof {
                            lemma_find_from(s, "</parameter>"@, e + 1);
                        }
                        match find_from(s, "</parameter>"@, e + 1) {
                            None => None,
                            Some(c) => parameters(
                                s,
                                c + "</parameter>"@.len(),
                                put(
                                    acc,
                                    trim(s.subrange(a, e)),
                                    coerced(strip_last_break(strip_first_break(s.subrange(e + 1, c)))),
                                ),
                            ),
                        }
                    },
                }
            },
        }
    }
}

/// The name and the arguments of the call that a block holds.
pub open spec fn parsed_block(s: Seq<char>) -> Option<(Seq<char>, JsonV)> {
    match find_from(s, "<function="@, 0) {
        None => None,
        Some(p) => {
            let a = p + "<function="@.len();
            match find_from(s, ">"@, a) {
                None => None,
                Some(e) => {
                    let name = trim(s.subrange(a, e));
                    let rest = s.skip(e + 1);
                    if !is_tool_name(name) {
                        None
                    } else {
                        match rfind_from(rest, "</function>"@, rest.len() - "</function>"@.len()) {
                            None => None,
                            Some(c) => match parameters(rest.take(c), 0, Seq::empty()) {
                                None => None,
                                Some(args) => Some((name, JsonV::Object(args))),
                            },
                        }
                    }
                },
            }
        },
    }
}

/// The names and arguments of the calls in the first `n` blocks, each once.
pub open spec fn rescued(bs: Seq<Seq<char>>, known: Set<Seq<char>>, n: int) -> Seq<
    (Seq<char>, Seq<char>),
>
    decreases n,
{
    if n <= 0 {
        Seq::empty()
    } else {
        let before = rescued(bs, known, n - 1);
        match parsed_block(bs[n - 1]) {
            Some((name, args)) => if known.contains(name) && !before.contains(
                (name, json_write(args)),
            ) {
                before.push((name, json_write(args)))
            } else {
                before
            },
            None => before,
        }
    }
}

/// The tool call with number `i`.
pub open spec fn rescued_call(i: int, name: Seq<char>, args: Seq<char>) -> JsonV {
    obj3_v(
        "id"@,
        JsonV::Str("rescued-"@ + dec(i)),
        "type"@,
        JsonV::Str("function"@),
        "function"@,
        obj2_v("name"@, JsonV::Str(name), "arguments"@, JsonV::Str(args)),
    )
}

/// The tool calls in a text.
pub open spec fn rescued_calls(text: Seq<char>, known: Set<Seq<char>>) -> Seq<JsonV> {
    let bs = blocks(text, 0);
    rescued(bs, known, bs.len() as int).map(
        |i: int, c: (Seq<char>, Seq<char>)| rescued_call(i, c.0, c.1),
    )
}

/// Whether the text is what is written of the arguments of one of the blocks, and is read as
/// an object where they can be read again.
pub open spec fn readable_arguments(bs: Seq<Seq<char>>, text: Seq<char>) -> bool {
    exists|k: int|
        0 <= k < bs.len() && (parsed_block(#[trigger] bs[k]) matches Some((_, args)) && args
            is Object && text == json_write(args) && (args.rereads() ==> (json_parse(text) matches Some(
            w,
        ) && w is Object)))
}

fn all_name_chars(s: &str) -> (r: bool)
    ensures
        r == is_tool_name(s@),
{
    let v = to_chars(s);
    if v.len() == 0 {
        return false;
    }
    let mut i: usize = 0;
    while i < v.len()
        invariant
            i <= v@.len(),
            v@ == s@,
            forall|j: int|
                0 <= j < i ==> alphanumeric(#[trigger] v@[j]) || v@[j] == '_' || v@[j] == '-',
        decreases v.len() - i,
    {
        let c = v[i];
        if !(is_alphanumeric(c) || c == '_' || c == '-') {
            assert(!alphanumeric(s@[i as int]));
            return false;
        }
        i = i + 1;
    }
    true
}

/// The text without one line break at its start and one at its end.
pub fn trim_one_newline(s: &str) -> (r: String)
    ensures
        r@ == strip_last_break(strip_first_break(s@)),
{
    let v = to_chars(s);
    let crlf = to_chars("\r\n");
    let lf = to_chars("\n");
    proof {
        reveal_strlit("\r\n");
        reveal_strlit("\n");
    }
    let from: usize = if matches_at(&v, &crlf, 0) {
        2
    } else if matches_at(&v, &lf, 0) {
        1
    } else {
        0
    };
    assert(v@.skip(0) =~= v@);
    let head = slice_text(&v, from, v.len());
    assert(head@ =~= strip_first_break(s@));
    let w = to_chars(head.as_str());
    let to: usize = if w.len() >= 2 && matches_at(&w, &crlf, w.len() - 2) {
        w.len() - 2
    } else if w.len() >= 1 && matches_at(&w, &lf, w.len() - 1) {
        w.len() - 1
    } else {
        w.len()
    };
    let r = slice_text(&w, 0, to);
    assert(w@.subrange(0, to as int) =~= w@.take(to as int));
    assert(w@.take(w@.len() as int) =~= w@);
    r
}

/// The value that a parameter's text stands for: JSON that is no string, or the text.
pub fn coerce_value(raw: &str) -> (r: Json)
    ensures
        r@ == coerced(raw@),
{
    let trimmed = trim_str(raw);
    match Json::parse(trimmed.as_str()) {
        Some(v) => match v {
            Json::Str(_) => Json::text(raw),
            v => v,
        },
        None => Json::text(raw),
    }
}

/// The parameters of a call's body.
fn parse_parameters(v: &Vec<char>) -> (r: Option<Vec<(String, Json)>>)
    ensures
        match r {
            Some(o) => parameters(v@, 0, Seq::empty()) == Some(fields(o@)),
            None => parameters(v@, 0, Seq::empty()) is None,
        },
{
    let open = to_chars("<parameter=");
    let gt = to_chars(">");
    let close = to_chars("</parameter>");
    proof {
        reveal_strlit("<parameter=");
        reveal_strlit(">");
        reveal_strlit("</parameter>");
    }
    let mut o: Vec<(String, Json)> = Vec::new();
    let mut i: usize = 0;
    assert(fields(o@) =~= Seq::empty());
    loop
        invariant
            i <= v@.len(),
            open@ == "<parameter="@,
            open@.len() == 11,
            gt@ == ">"@,
            gt@.len() == 1,
            close@ == "</parameter>"@,
            close@.len() == 12,
            parameters(v@, 0, Seq::empty()) == parameters(v@, i as int, fields(o@)),
        decreases v@.len() - i,
    {
        let p: usize = match find(v, &open, i) {
            Some(p) => p,
            None => return Some(o),
        };
        let a: usize = p + 11;
        let e: usize = match find(v, &gt, a) {
            Some(e) => e,
            None => return None,
        };
        let c: usize = match find(v, &close, e + 1) {
            Some(c) => c,
            None => return None,
        };
        let (ka, kb) = trim_bounds(v, a, e);
        let key = slice_text(v, ka, kb);
        let raw = slice_text(v, e + 1, c);
        let raw = trim_one_newline(raw.as_str());
        put_field(&mut o, key.as_str(), coerce_value(raw.as_str()));
        i = c + 12;
    }
}

/// The name and the arguments of the call that a block holds.
pub fn parse_block(block: &str) -> (r: Option<(String, Json)>)
    ensures
        match r {
            Some((name, args)) => parsed_block(block@) == Some((name@, args@)),
            None => parsed_block(block@) is None,
        },
{
    let v = to_chars(block);
    let open = to_chars("<function=");
    let gt = to_chars(">");
    let close = to_chars("</function>");
    proof {
        reveal_strlit("<function=");
        reveal_strlit(">");
        reveal_strlit("</function>");
    }
    let p: usize = match find(&v, &open, 0) {
        Some(p) => p,
        None => return None,
    };
    let a: usize = p + open.len();
    let e: usize = match find(&v, &gt, a) {
        Some(e) => e,
        None => return None,
    };
    let (na, nb) = trim_bounds(&v, a, e);
    let name = slice_text(&v, na, nb);
    if !all_name_chars(name.as_str()) {
        return None;
    }
    let rest = to_chars(slice_text(&v, e + 1, v.len()).as_str());
    assert(rest@ =~= v@.skip(e + 1));
    let c: usize = match rfind(&rest, &close) {
        Some(c) => c,
        None => return None,
    };
    let body = to_chars(slice_text(&rest, 0, c).as_str());
    assert(body@ =~= rest@.take(c as int));
    match parse_parameters(&body) {
        Some(o) => Some((name, object_of(o))),
        None => None,
    }
}

/// The texts between `<tool_call>` and `</tool_call>`.
fn split_blocks(text: &str) -> (r: Vec<String>)
    ensures
        crate::text::texts(r@) == blocks(text@, 0),
{
    let v = to_chars(text);
    let open = to_chars("<tool_call>");
    let close = to_chars("</tool_call>");
    proof {
        reveal_strlit("<tool_call>");
        reveal_strlit("</tool_call>");
    }
    let mut out: Vec<String> = Vec::new();
    let mut i: usize = 0;
    assert(crate::text::texts(out@) =~= Seq::empty());
    assert(crate::text::texts(out@) + blocks(v@, 0) =~= blocks(v@, 0));
    loop
        invariant
            i <= v@.len(),
            open@ == "<tool_call>"@,
            open@.len() == 11,
            close@ == "</tool_call>"@,
            close@.len() == 12,
            v@ == text@,
            crate::text::texts(out@) + blocks(v@, i as int) == blocks(v@, 0),
        decreases v@.len() - i,
    {
        let p: usize = match find(&v, &open, i) {
            Some(p) => p,
            None => {
                assert(crate::text::texts(out@) + Seq::empty() =~= crate::text::texts(out@));
                return out;
            },
        };
        let a: usize = p + 11;
        let e: usize = match find(&v, &close, a) {
            Some(e) => e,
            None => {
                assert(crate::text::texts(out@) + Seq::empty() =~= crate::text::texts(out@));
                return out;
            },
        };
        let ghost before = crate::text::texts(out@);
        out.push(slice_text(&v, a, e));
        let ghost block = v@.subrange(a as int, e as int);
        assert(crate::text::texts(out@) =~= before.push(block));
        assert(crate::text::texts(out@) + blocks(v@, e + 12) =~= before + blocks(v@, i as int));
        i = e + 12;
    }
}

/// The names and arguments as sequences of characters.
spec fn pairs(s: Seq<(String, String)>) -> Seq<(Seq<char>, Seq<char>)> {
    s.map_values(|p: (String, String)| (p.0@, p.1@))
}

/// Whether the pair is among the pairs.
fn has_pair(s: &Vec<(String, String)>, name: &str, args: &str) -> (r: bool)
    ensures
        r == pairs(s@).contains((name@, args@)),
{
    let mut i: usize = 0;
    while i < s.len()
        invariant
            i <= s@.len(),
            forall|j: int| 0 <= j < i ==> pairs(s@)[j] != (name@, args@),
        decreases s.len() - i,
    {
        if same(s[i].0.as_str(), name) && same(s[i].1.as_str(), args) {
            assert(pairs(s@)[i as int] == (name@, args@));
            return true;
        }
        i = i + 1;
    }
    false
}

/// The arguments of a rescued call.
proof fn lemma_call_arguments(i: int, name: Seq<char>, args: Seq<char>)
    ensures
        rescued_call(i, name, args).at("function"@).str_or("arguments"@, Seq::empty()) == args,
{
    reveal_strlit("id");
    reveal_strlit("type");
    reveal_strlit("function");
    reveal_strlit("name");
    reveal_strlit("arguments");
    assert("id"@.len() == 2 && "type"@.len() == 4 && "function"@.len() == 8);
    assert("name"@.len() == 4 && "arguments"@.len() == 9);
    reveal_with_fuel(crate::json::key_from, 4);
}

/// Finds the tool calls in a text, as tool-call objects with made-up ids.
pub fn extract_tool_calls(text: &str, known_tools: &StringSet) -> (r: Vec<Json>)
    ensures
        jsons(r@) == rescued_calls(text@, known_tools@),
        forall|i: int|
            0 <= i < r@.len() ==> readable_arguments(
                blocks(text@, 0),
                (#[trigger] r@[i])@.at("function"@).str_or("arguments"@, Seq::empty()),
            ),
{
    let bs = split_blocks(text);
    let ghost bv = blocks(text@, 0);
    let mut seen: Vec<(String, String)> = Vec::new();
    let mut calls: Vec<Json> = Vec::new();
    let mut i: usize = 0;
    assert(pairs(seen@) =~= Seq::empty());
    while i < bs.len()
        invariant
            i <= bs@.len(),
            bv == crate::text::texts(bs@),
            pairs(seen@) == rescued(bv, known_tools@, i as int),
            calls@.len() == seen@.len(),
            forall|j: int|
                0 <= j < calls@.len() ==> (#[trigger] calls@[j])@ == rescued_call(
                    j,
                    pairs(seen@)[j].0,
                    pairs(seen@)[j].1,
                ),
            forall|j: int|
                0 <= j < seen@.len() ==> readable_arguments(bv, (#[trigger] seen@[j]).1@),
        decreases bs.len() - i,
    {
        assert(bv[i as int] == bs@[i as int]@);
        if let Some((name, args)) = parse_block(bs[i].as_str()) {
            if known_tools.contains(name.as_str()) {
                let args_str = args.write();
                if !has_pair(&seen, name.as_str(), args_str.as_str()) {
                    let mut id = owned("rescued-");
                    id.append(dec_text(calls.len() as u64).as_str());
                    let call = obj3(
                        "id",
                        Json::Str(id),
                        "type",
                        Json::text("function"),
                        "function",
                        obj2(
                            "name",
                            Json::text(name.as_str()),
                            "arguments",
                            Json::text(args_str.as_str()),
                        ),
                    );
                    let ghost before = seen@;
                    assert(readable_arguments(bv, args_str@)) by {
                        assert(parsed_block(bv[i as int]) == Some((name@, args@)));
                    }
                    calls.push(call);
                    seen.push((name, args_str));
                    assert(pairs(seen@) =~= pairs(before).push((name@, args_str@)));
                }
            }
        }
        i = i + 1;
    }
    assert(jsons(calls@) =~= rescued_calls(text@, known_tools@));
    assert forall|i: int| 0 <= i < calls@.len() implies readable_arguments(
        bv,
        (#[trigger] calls@[i])@.at("function"@).str_or("arguments"@, Seq::empty()),
    ) by {
        lemma_call_arguments(i, seen@[i].0@, seen@[i].1@);
    }
    calls
}

/// No call is rescued twice, and each rescued call names a known tool.
pub proof fn lemma_rescued_once_and_known(bs: Seq<Seq<char>>, known: Set<Seq<char>>, n: int)
    requires
        0 <= n <= bs.len(),
    ensures
        rescued(bs, known, n).no_duplicates(),
        forall|i: int|
            0 <= i < rescued(bs, known, n).len() ==> known.contains(
                (#[trigger] rescued(bs, known, n)[i]).0,
            ),
    decreases n,
{
    if n > 0 {
        lemma_rescued_once_and_known(bs, known, n - 1);
    }
}

/// Text that opens no call holds none.
pub proof fn lemma_plain_text_has_no_calls(text: Seq<char>, known: Set<Seq<char>>)
    requires
        find_from(text, "<tool_call>"@, 0) is None,
    ensures
        rescued_calls(text, known).len() == 0,
{
    assert(blocks(text, 0).len() == 0);
    assert(rescued(blocks(text, 0), known, 0).len() == 0);
}

} // verus!
