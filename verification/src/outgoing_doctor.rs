//! Sanitizes the tool calls of a conversation before it is sent to the model.
//!
//! A corrupted `arguments` string in the history makes a server reject every request.
//! So, for each assistant message with tool calls:
//! - If all arguments are JSON, they are written again in canonical form.
//! - If any is not, the message and every result that answers it go, and a pair of
//!   messages of assistant and user stands in their place.

use crate::json::{
    json_parse, json_write, jsons, lemma_get_set, lemma_get_set_other, lemma_jsons_push, obj2,
    obj2_v, Json, JsonV,
};
use crate::state::{calls_of, has_role, role_is};
use crate::string_set::StringSet;
use crate::text::{join, join_strings, owned, texts};
use vstd::prelude::*;

verus! {

/// A repair: which message was replaced, and the tools that it called.
#[derive(Debug)]
pub struct RepairRecord {
    pub msg_index: usize,
    pub tool_names: Vec<String>,
}

/// The model of a [`RepairRecord`].
pub struct RepairV {
    pub index: int,
    pub names: Seq<Seq<char>>,
}

impl View for RepairRecord {
    type V = RepairV;

    open spec fn view(&self) -> RepairV {
        RepairV { index: self.msg_index as int, names: texts(self.tool_names@) }
    }
}

pub open spec fn repairs(s: Seq<RepairRecord>) -> Seq<RepairV> {
    s.map_values(|r: RepairRecord| r@)
}

/// The arguments of a call, where they are a text.
pub open spec fn arguments(tc: JsonV) -> Option<Seq<char>> {
    tc.at("function"@).str_at("arguments"@)
}

/// Whether the arguments of the call are no JSON.
pub open spec fn broken_call(tc: JsonV) -> bool {
    match arguments(tc) {
        Some(s) => json_parse(s) is None,
        None => true,
    }
}

/// Whether the message is the assistant's and has tool calls.
pub open spec fn calls_tools(m: JsonV) -> bool {
    has_role(m, "assistant"@) && m.get("tool_calls"@) is Some
}

/// Whether the message has a broken call.
pub open spec fn broken(m: JsonV) -> bool {
    calls_tools(m) && exists|i: int| 0 <= i < calls_of(m).len() && broken_call(#[trigger] calls_of(m)[i])
}

/// The ids of the first `n` calls that have one.
pub open spec fn ids_of(calls: Seq<JsonV>, n: int) -> Set<Seq<char>>
    decreases n,
{
    if n <= 0 {
        Set::empty()
    } else {
        match calls[n - 1].str_at("id"@) {
            Some(id) => ids_of(calls, n - 1).insert(id),
            None => ids_of(calls, n - 1),
        }
    }
}

/// The ids of the calls of the broken ones among the first `n` messages.
pub open spec fn orphans(ms: Seq<JsonV>, n: int) -> Set<Seq<char>>
    decreases n,
{
    if n <= 0 {
        Set::empty()
    } else if broken(ms[n - 1]) {
        orphans(ms, n - 1).union(ids_of(calls_of(ms[n - 1]), calls_of(ms[n - 1]).len() as int))
    } else {
        orphans(ms, n - 1)
    }
}

/// The names of the tools that the first `n` calls call.
pub open spec fn names_of(calls: Seq<JsonV>, n: int) -> Seq<Seq<char>>
    decreases n,
{
    if n <= 0 {
        Seq::empty()
    } else {
        match calls[n - 1].at("function"@).str_at("name"@) {
            Some(name) => names_of(calls, n - 1).push(name),
            None => names_of(calls, n - 1),
        }
    }
}

/// The names of the tools that a message calls.
pub open spec fn tool_names(m: JsonV) -> Seq<Seq<char>> {
    names_of(calls_of(m), calls_of(m).len() as int)
}

/// What the assistant says in place of a broken message.
pub open spec fn failure_note(names: Seq<Seq<char>>) -> JsonV {
    obj2_v(
        "role"@,
        JsonV::Str("assistant"@),
        "content"@,
        JsonV::Str(
            "[tool call to "@ + (if names.len() == 1 {
                names[0]
            } else {
                join(names, ", "@) + " (and possibly others)"@
            })
                + " failed: arguments were corrupted during streaming and could not be parsed]"@,
        ),
    )
}

/// What the user says after it.
pub open spec fn retry_note() -> JsonV {
    obj2_v(
        "role"@,
        JsonV::Str("user"@),
        "content"@,
        JsonV::Str(
            "[the tool call arguments were malformed JSON — likely a streaming chunk was dropped. Please retry the tool call if needed.]"@,
        ),
    )
}

/// The call with its arguments in canonical form, where they are JSON.
pub open spec fn canonical_call(tc: JsonV) -> JsonV {
    match arguments(tc) {
        Some(s) => match json_parse(s) {
            Some(v) => tc.set(
                "function"@,
                tc.at("function"@).set("arguments"@, JsonV::Str(json_write(v))),
            ),
            None => tc,
        },
        None => tc,
    }
}

/// The message with the arguments of its calls in canonical form.
pub open spec fn canonical(m: JsonV) -> JsonV {
    if calls_tools(m) {
        m.set(
            "tool_calls"@,
            JsonV::Array(calls_of(m).map_values(|tc: JsonV| canonical_call(tc))),
        )
    } else {
        m
    }
}

/// Whether the message is the result of a call of a broken message.
pub open spec fn is_orphan(m: JsonV, ids: Set<Seq<char>>) -> bool {
    has_role(m, "tool"@) && (m.str_at("tool_call_id"@) matches Some(id) && ids.contains(id))
}

/// What stands for a message in the doctored conversation.
pub open spec fn treated(m: JsonV, ids: Set<Seq<char>>) -> Seq<JsonV> {
    if broken(m) {
        seq![failure_note(tool_names(m)), retry_note()]
    } else if is_orphan(m, ids) {
        Seq::empty()
    } else {
        seq![canonical(m)]
    }
}

/// What stands for the first `n` messages.
pub open spec fn doctored(ms: Seq<JsonV>, ids: Set<Seq<char>>, n: int) -> Seq<JsonV>
    decreases n,
{
    if n <= 0 {
        Seq::empty()
    } else {
        doctored(ms, ids, n - 1) + treated(ms[n - 1], ids)
    }
}

/// The repairs among the first `n` messages.
pub open spec fn repaired(ms: Seq<JsonV>, n: int) -> Seq<RepairV>
    decreases n,
{
    if n <= 0 {
        Seq::empty()
    } else if broken(ms[n - 1]) {
        repaired(ms, n - 1).push(RepairV { index: n - 1, names: tool_names(ms[n - 1]) })
    } else {
        repaired(ms, n - 1)
    }
}

/// The arguments of a call, where they are a text.
fn args_text(tc: &Json) -> (r: Option<&str>)
    ensures
        match r {
            Some(s) => arguments(tc@) == Some(s@),
            None => arguments(tc@) is None,
        },
{
    match tc.get("function") {
        Some(f) => f.str_at("arguments"),
        None => None,
    }
}

fn is_broken_call(tc: &Json) -> (r: bool)
    ensures
        r == broken_call(tc@),
{
    match args_text(tc) {
        Some(s) => Json::parse(s).is_none(),
        None => true,
    }
}

fn is_assistant_with_tool_calls(msg: &Json) -> (r: bool)
    ensures
        r == calls_tools(msg@),
{
    role_is(msg, "assistant") && msg.get("tool_calls").is_some()
}

/// The calls of a message.
fn get_tool_calls(msg: &Json) -> (r: Vec<Json>)
    ensures
        jsons(r@) == calls_of(msg@),
{
    if let Some(v) = msg.get("tool_calls") {
        if let Some(a) = v.as_array() {
            return crate::json::clone_jsons(a);
        }
    }
    let r: Vec<Json> = Vec::new();
    assert(jsons(r@) =~= Seq::empty());
    r
}

fn is_broken(msg: &Json) -> (r: bool)
    ensures
        r == broken(msg@),
{
    if !is_assistant_with_tool_calls(msg) {
        return false;
    }
    let calls = get_tool_calls(msg);
    let ghost cs = calls_of(msg@);
    let mut i: usize = 0;
    while i < calls.len()
        invariant
            i <= calls@.len(),
            cs == jsons(calls@),
            cs == calls_of(msg@),
            calls_tools(msg@),
            forall|j: int| 0 <= j < i ==> !broken_call(#[trigger] cs[j]),
        decreases calls.len() - i,
    {
        assert(cs[i as int] == calls@[i as int]@);
        if is_broken_call(&calls[i]) {
            return true;
        }
        i = i + 1;
    }
    false
}

/// Adds the ids of the calls of a message.
fn collect_ids(ids: &mut StringSet, calls: &Vec<Json>)
    ensures
        final(ids)@ == old(ids)@.union(ids_of(jsons(calls@), calls@.len() as int)),
{
    let ghost start = ids@;
    let ghost cs = jsons(calls@);
    let mut i: usize = 0;
    assert(start.union(Set::empty()) =~= start);
    while i < calls.len()
        invariant
            i <= calls@.len(),
            cs == jsons(calls@),
            ids@ == start.union(ids_of(cs, i as int)),
        decreases calls.len() - i,
    {
        assert(cs[i as int] == calls@[i as int]@);
        if let Some(id) = calls[i].str_at("id") {
            let fresh = ids.insert(id);
            assert(start.union(ids_of(cs, i as int)).insert(id@) =~= start.union(
                ids_of(cs, i as int).insert(id@),
            ));
        }
        i = i + 1;
    }
}

fn collect_names(calls: &Vec<Json>) -> (r: Vec<String>)
    ensures
        texts(r@) == names_of(jsons(calls@), calls@.len() as int),
{
    let mut out: Vec<String> = Vec::new();
    let ghost cs = jsons(calls@);
    assert(texts(out@) =~= Seq::empty());
    for i in 0..calls.len()
        invariant
            cs == jsons(calls@),
            texts(out@) == names_of(cs, i as int),
    {
        assert(cs[i as int] == calls@[i as int]@);
        if let Some(f) = calls[i].get("function") {
            if let Some(name) = f.str_at("name") {
                let ghost before = out@;
                out.push(owned(name));
                assert(texts(out@) =~= texts(before).push(name@));
            }
        }
    }
    out
}

fn failure_message(names: &Vec<String>) -> (r: Json)
    ensures
        r@ == failure_note(texts(names@)),
{
    let mut tools = String::new();
    if names.len() == 1 {
        tools = names[0].clone();
    } else {
        tools = join_strings(names, ", ");
        tools.append(" (and possibly others)");
    }
    let mut text = owned("[tool call to ");
    text.append(tools.as_str());
    text.append(" failed: arguments were corrupted during streaming and could not be parsed]");
    obj2("role", Json::text("assistant"), "content", Json::Str(text))
}

fn retry_message() -> (r: Json)
    ensures
        r@ == retry_note(),
{
    obj2(
        "role",
        Json::text("user"),
        "content",
        Json::text(
            "[the tool call arguments were malformed JSON — likely a streaming chunk was dropped. Please retry the tool call if needed.]",
        ),
    )
}

/// Whether the text of the arguments of a call, where they are JSON, can be written anew and
/// read again.
pub open spec fn rewritable_call(tc: JsonV) -> bool {
    arguments(tc) matches Some(s) ==> json_parse(s) matches Some(v) ==> v.rereads()
}

/// Whether that holds of each call in the message.
pub open spec fn rewritable(m: JsonV) -> bool {
    forall|i: int| 0 <= i < calls_of(m).len() ==> rewritable_call(#[trigger] calls_of(m)[i])
}

/// Where the arguments of a call are JSON before and after, the call is sound after.
proof fn lemma_canonical_call(tc: JsonV)
    requires
        !broken_call(tc),
        arguments(tc) matches Some(s) ==> json_parse(s) matches Some(v) ==> json_parse(
            json_write(v),
        ) is Some,
    ensures
        !broken_call(canonical_call(tc)),
{
    if let Some(s) = arguments(tc) {
        if let Some(v) = json_parse(s) {
            let f = tc.at("function"@);
            let f2 = f.set("arguments"@, JsonV::Str(json_write(v)));
            lemma_get_set(f, "arguments"@, JsonV::Str(json_write(v)));
            lemma_get_set(tc, "function"@, f2);
        }
    }
}

fn make_canonical_call(tc: &Json) -> (r: Json)
    ensures
        r@ == canonical_call(tc@),
        !broken_call(tc@) && rewritable_call(tc@) ==> !broken_call(r@),
{
    let mut out = tc.clone();
    if let Some(f) = tc.get("function") {
        if let Some(s) = f.str_at("arguments") {
            if let Some(v) = Json::parse(s) {
                let mut func = f.clone();
                func.set("arguments", Json::Str(v.write()));
                out.set("function", func);
                proof {
                    if !broken_call(tc@) && rewritable_call(tc@) {
                        lemma_canonical_call(tc@);
                    }
                }
            }
        }
    }
    out
}

/// A message of one role and one text has no tool calls.
proof fn lemma_note_is_sound(role: Seq<char>, content: JsonV)
    ensures
        !broken(obj2_v("role"@, JsonV::Str(role), "content"@, content)),
{
    reveal_strlit("tool_calls");
    reveal_strlit("role");
    reveal_strlit("content");
    assert("tool_calls"@.len() == 10 && "role"@.len() == 4 && "content"@.len() == 7);
    reveal_with_fuel(crate::json::key_from, 3);
}

fn make_canonical(msg: &Json) -> (r: Json)
    ensures
        r@ == canonical(msg@),
        !broken(msg@) && rewritable(msg@) ==> !broken(r@),
{
    let mut out = msg.clone();
    if is_assistant_with_tool_calls(msg) {
        let calls = get_tool_calls(msg);
        let ghost want = calls_of(msg@).map_values(|tc: JsonV| canonical_call(tc));
        let mut fixed: Vec<Json> = Vec::new();
        for i in 0..calls.len()
            invariant
                fixed@.len() == i,
                forall|j: int|
                    0 <= j < i ==> (#[trigger] fixed@[j])@ == canonical_call(calls@[j]@) && (
                    !broken_call(calls@[j]@) && rewritable_call(calls@[j]@) ==> !broken_call(
                        fixed@[j]@,
                    )),
        {
            fixed.push(make_canonical_call(&calls[i]));
        }
        assert(jsons(fixed@) =~= want) by {
            assert forall|j: int| 0 <= j < want.len() implies jsons(fixed@)[j] == want[j] by {
                assert(jsons(calls@)[j] == calls@[j]@);
            }
        }
        proof {
            lemma_get_set(msg@, "tool_calls"@, JsonV::Array(want));
            if !broken(msg@) && rewritable(msg@) {
                assert forall|j: int| 0 <= j < want.len() implies !broken_call(
                    #[trigger] want[j],
                ) by {
                    assert(jsons(fixed@)[j] == fixed@[j]@);
                    assert(calls_of(msg@)[j] == calls@[j]@);
                    assert(!broken_call(calls_of(msg@)[j]) && rewritable_call(calls_of(msg@)[j]));
                }
            }
        }
        out.set("tool_calls", Json::array(fixed));
    }
    out
}

/// Replaces what is broken in the conversation and puts the rest into canonical form;
/// says what it replaced. Nothing is broken afterwards, where the arguments that are JSON can
/// be written anew and read again.
pub fn doctor_messages(messages: &mut Vec<Json>) -> (r: Vec<RepairRecord>)
    ensures
        ({
            let ms = jsons(old(messages)@);
            let n = ms.len() as int;
            &&& jsons(final(messages)@) == doctored(ms, orphans(ms, n), n)
            &&& repairs(r@) == repaired(ms, n)
        }),
        (forall|i: int|
            0 <= i < old(messages)@.len() ==> rewritable((#[trigger] old(messages)@[i])@))
            ==> forall|i: int|
            0 <= i < final(messages)@.len() ==> !broken((#[trigger] final(messages)@[i])@),
{
    let ghost ms = jsons(messages@);
    let ghost n = ms.len() as int;
    let mut ids = StringSet::new();
    let mut i: usize = 0;
    while i < messages.len()
        invariant
            i <= messages@.len(),
            ms == jsons(messages@),
            ids@ == orphans(ms, i as int),
        decreases messages.len() - i,
    {
        assert(ms[i as int] == messages@[i as int]@);
        if is_broken(&messages[i]) {
            collect_ids(&mut ids, &get_tool_calls(&messages[i]));
        }
        i = i + 1;
    }
    let mut out: Vec<Json> = Vec::new();
    let mut records: Vec<RepairRecord> = Vec::new();
    assert(jsons(out@) =~= Seq::empty());
    assert(repairs(records@) =~= Seq::empty());
    let mut k: usize = 0;
    while k < messages.len()
        invariant
            k <= messages@.len(),
            ms == jsons(messages@),
            n == ms.len(),
            ids@ == orphans(ms, n),
            jsons(out@) == doctored(ms, ids@, k as int),
            repairs(records@) == repaired(ms, k as int),
            (forall|i: int| 0 <= i < messages@.len() ==> rewritable((#[trigger] messages@[i])@))
                ==> forall|i: int| 0 <= i < out@.len() ==> !broken((#[trigger] out@[i])@),
        decreases messages.len() - k,
    {
        let msg = &messages[k];
        assert(ms[k as int] == msg@);
        let ghost before = jsons(out@);
        if is_broken(msg) {
            let names = collect_names(&get_tool_calls(msg));
            let note = failure_message(&names);
            let retry = retry_message();
            proof {
                lemma_jsons_push(out@, note);
                lemma_jsons_push(out@.push(note), retry);
            }
            proof {
                lemma_note_is_sound(
                    "assistant"@,
                    failure_note(tool_names(msg@))->Object_0[1].1,
                );
                lemma_note_is_sound("user"@, retry_note()->Object_0[1].1);
            }
            out.push(note);
            out.push(retry);
            assert(jsons(out@) =~= before + seq![note@, retry@]);
            let ghost old_records = records@;
            let rec = RepairRecord { msg_index: k, tool_names: names };
            records.push(rec);
            assert(repairs(records@) =~= repairs(old_records).push(rec@));
        } else {
            let orphan = role_is(msg, "tool") && match msg.str_at("tool_call_id") {
                Some(id) => ids.contains(id),
                None => false,
            };
            if !orphan {
                let m = make_canonical(msg);
                proof {
                    lemma_jsons_push(out@, m);
                }
                out.push(m);
                assert(jsons(out@) =~= before + seq![m@]);
            } else {
                assert(before + Seq::<JsonV>::empty() =~= before);
            }
        }
        k = k + 1;
    }
    *messages = out;
    records
}

/// A conversation without broken calls loses no message and needs no repair; each
/// message is kept, its arguments in canonical form.
pub proof fn lemma_sound_is_kept(ms: Seq<JsonV>, n: int)
    requires
        0 <= n <= ms.len(),
        forall|i: int| 0 <= i < ms.len() ==> !broken(#[trigger] ms[i]),
    ensures
        orphans(ms, n) == Set::<Seq<char>>::empty(),
        repaired(ms, n) == Seq::<RepairV>::empty(),
        doctored(ms, Set::empty(), n) == ms.take(n).map_values(|m: JsonV| canonical(m)),
    decreases n,
{
    if n > 0 {
        lemma_sound_is_kept(ms, n - 1);
        assert(ms.take(n).map_values(|m: JsonV| canonical(m)) =~= ms.take(n - 1).map_values(
            |m: JsonV| canonical(m),
        ) + seq![canonical(ms[n - 1])]);
    } else {
        assert(ms.take(0).map_values(|m: JsonV| canonical(m)) =~= Seq::empty());
    }
}

/// A message that calls no tool and is no result of one is kept as it is.
pub proof fn lemma_plain_is_kept(m: JsonV, ids: Set<Seq<char>>)
    requires
        !calls_tools(m),
        !has_role(m, "tool"@),
    ensures
        treated(m, ids) == seq![m],
{
}

} // verus!
