//! What becomes of each message when a conversation is sanitized.

use crate::json::{
    json_parse, json_write, keys_once, lemma_get_entry, lemma_get_set, lemma_get_set_other, JsonV,
};
use crate::outgoing_doctor::{
    arguments, broken, broken_call, calls_tools, canonical, canonical_call, doctored, failure_note,
    ids_of, is_orphan, names_of, orphans, repaired, retry_note, tool_names, treated, RepairV,
};
use crate::state::calls_of;
use crate::text::join;
use vstd::prelude::*;

verus! {

/// The tool calls that a message lists.
pub open spec fn listed(m: JsonV) -> Seq<JsonV> {
    match m.get("tool_calls"@) {
        Some(JsonV::Array(a)) => a,
        _ => Seq::empty(),
    }
}

/// Whether the arguments of a call are missing or cannot be read as JSON.
pub open spec fn unreadable(tc: JsonV) -> bool {
    match tc.get("function"@) {
        Some(f) => match f.get("arguments"@) {
            Some(JsonV::Str(s)) => json_parse(s) is None,
            _ => true,
        },
        None => true,
    }
}

/// Whether a message of the assistant has a call with arguments that cannot be read.
pub open spec fn corrupted(m: JsonV) -> bool {
    &&& m.get("role"@) == Some(JsonV::Str("assistant"@))
    &&& exists|j: int| 0 <= j < listed(m).len() && unreadable(#[trigger] listed(m)[j])
}

/// Whether the id is that of a call in a corrupted message.
pub open spec fn lost(ms: Seq<JsonV>, id: Seq<char>) -> bool {
    exists|i: int, j: int|
        0 <= i < ms.len() && corrupted(ms[i]) && 0 <= j < listed(ms[i]).len() && (
        #[trigger] listed(ms[i])[j]).get("id"@) == Some(JsonV::Str(id))
}

/// Whether a message is a result that answers a call in a corrupted message.
pub open spec fn answers_lost(ms: Seq<JsonV>, m: JsonV) -> bool {
    &&& m.get("role"@) == Some(JsonV::Str("tool"@))
    &&& m.get("tool_call_id"@) matches Some(JsonV::Str(id)) && lost(ms, id)
}

/// The names of the tools that the calls name, in their order.
pub open spec fn named(calls: Seq<JsonV>) -> Seq<Seq<char>>
    decreases calls.len(),
{
    if calls.len() == 0 {
        Seq::empty()
    } else {
        match calls.last().get("function"@) {
            Some(f) => match f.get("name"@) {
                Some(JsonV::Str(n)) => named(calls.drop_last()).push(n),
                _ => named(calls.drop_last()),
            },
            None => named(calls.drop_last()),
        }
    }
}

/// Whether `b` is the call `a`, its arguments written anew.
pub open spec fn rewritten_call(a: JsonV, b: JsonV) -> bool {
    &&& forall|k: Seq<char>| k != "function"@ ==> #[trigger] b.get(k) == a.get(k)
    &&& a.get("function"@) matches Some(f) && b.get("function"@) matches Some(g) && {
        &&& forall|k: Seq<char>| k != "arguments"@ ==> #[trigger] g.get(k) == f.get(k)
        &&& f.get("arguments"@) matches Some(JsonV::Str(s)) && json_parse(s) matches Some(v)
            && g.get("arguments"@) == Some(JsonV::Str(json_write(v)))
    }
}

/// Whether `b` is the message `a`, the arguments of its calls written anew.
pub open spec fn rewritten(a: JsonV, b: JsonV) -> bool {
    &&& forall|k: Seq<char>| k != "tool_calls"@ ==> #[trigger] b.get(k) == a.get(k)
    &&& b.get("tool_calls"@) is Some
    &&& listed(b).len() == listed(a).len()
    &&& forall|j: int|
        0 <= j < listed(a).len() ==> rewritten_call(listed(a)[j], #[trigger] listed(b)[j])
}

proof fn lemma_corrupted(m: JsonV)
    ensures
        corrupted(m) == broken(m),
        listed(m) == calls_of(m),
{
    if broken(m) {
        let i = choose|i: int| 0 <= i < calls_of(m).len() && broken_call(#[trigger] calls_of(m)[i]);
        assert(unreadable(listed(m)[i]));
    }
    if corrupted(m) {
        let i = choose|i: int| 0 <= i < listed(m).len() && unreadable(#[trigger] listed(m)[i]);
        assert(broken_call(calls_of(m)[i]));
    }
}

proof fn lemma_ids(calls: Seq<JsonV>, n: int, id: Seq<char>)
    requires
        0 <= n <= calls.len(),
    ensures
        ids_of(calls, n).contains(id) <==> exists|j: int|
            0 <= j < n && (#[trigger] calls[j]).get("id"@) == Some(JsonV::Str(id)),
    decreases n,
{
    if n > 0 {
        lemma_ids(calls, n - 1, id);
        assert(calls[n - 1].str_at("id"@) == Some(id) <==> calls[n - 1].get("id"@) == Some(
            JsonV::Str(id),
        ));
    }
}

proof fn lemma_orphans(ms: Seq<JsonV>, n: int, id: Seq<char>)
    requires
        0 <= n <= ms.len(),
    ensures
        orphans(ms, n).contains(id) <==> lost(ms.take(n), id),
    decreases n,
{
    if n > 0 {
        let m = ms[n - 1];
        let (s, t) = (ms.take(n - 1), ms.take(n));
        lemma_orphans(ms, n - 1, id);
        lemma_corrupted(m);
        lemma_ids(calls_of(m), calls_of(m).len() as int, id);
        if lost(s, id) {
            let (i, j) = choose|i: int, j: int|
                0 <= i < s.len() && corrupted(s[i]) && 0 <= j < listed(s[i]).len() && (
                #[trigger] listed(s[i])[j]).get("id"@) == Some(JsonV::Str(id));
            assert(t[i] == s[i]);
            assert(listed(t[i])[j].get("id"@) == Some(JsonV::Str(id)));
        }
        if lost(t, id) {
            let (i, j) = choose|i: int, j: int|
                0 <= i < t.len() && corrupted(t[i]) && 0 <= j < listed(t[i]).len() && (
                #[trigger] listed(t[i])[j]).get("id"@) == Some(JsonV::Str(id));
            if i < n - 1 {
                assert(t[i] == s[i]);
                assert(listed(s[i])[j].get("id"@) == Some(JsonV::Str(id)));
            } else {
                assert(t[i] == m);
            }
        }
        if broken(m) && ids_of(calls_of(m), calls_of(m).len() as int).contains(id) {
            let j = choose|j: int|
                0 <= j < calls_of(m).len() && (#[trigger] calls_of(m)[j]).get("id"@) == Some(
                    JsonV::Str(id),
                );
            assert(t[n - 1] == m);
            assert(listed(t[n - 1])[j].get("id"@) == Some(JsonV::Str(id)));
        }
    }
}

proof fn lemma_answers(ms: Seq<JsonV>, m: JsonV)
    ensures
        is_orphan(m, orphans(ms, ms.len() as int)) == answers_lost(ms, m),
{
    if let Some(id) = m.str_at("tool_call_id"@) {
        lemma_orphans(ms, ms.len() as int, id);
        assert(ms.take(ms.len() as int) =~= ms);
    }
}

proof fn lemma_named(calls: Seq<JsonV>, n: int)
    requires
        0 <= n <= calls.len(),
    ensures
        names_of(calls, n) == named(calls.take(n)),
    decreases n,
{
    if n > 0 {
        lemma_named(calls, n - 1);
        assert(calls.take(n).drop_last() =~= calls.take(n - 1));
    }
}

proof fn lemma_call_rewritten(tc: JsonV)
    requires
        !unreadable(tc),
    ensures
        rewritten_call(tc, canonical_call(tc)),
{
    let f = tc.at("function"@);
    let v = json_parse(arguments(tc).unwrap()).unwrap();
    let g = f.set("arguments"@, JsonV::Str(json_write(v)));
    let r = canonical_call(tc);
    lemma_get_set(f, "arguments"@, JsonV::Str(json_write(v)));
    lemma_get_set(tc, "function"@, g);
    assert forall|k: Seq<char>| k != "function"@ implies #[trigger] r.get(k) == tc.get(k) by {
        lemma_get_set_other(tc, "function"@, g, k);
    }
    assert forall|k: Seq<char>| k != "arguments"@ implies #[trigger] g.get(k) == f.get(k) by {
        lemma_get_set_other(f, "arguments"@, JsonV::Str(json_write(v)), k);
    }
}

proof fn lemma_rewritten(m: JsonV)
    requires
        calls_tools(m),
        !corrupted(m),
    ensures
        rewritten(m, canonical(m)),
{
    let b = canonical(m);
    let a = JsonV::Array(calls_of(m).map_values(|tc: JsonV| canonical_call(tc)));
    lemma_corrupted(m);
    lemma_get_set(m, "tool_calls"@, a);
    assert forall|k: Seq<char>| k != "tool_calls"@ implies #[trigger] b.get(k) == m.get(k) by {
        lemma_get_set_other(m, "tool_calls"@, a, k);
    }
    assert forall|j: int| 0 <= j < listed(m).len() implies rewritten_call(
        listed(m)[j],
        #[trigger] listed(b)[j],
    ) by {
        assert(!unreadable(listed(m)[j]));
        lemma_call_rewritten(listed(m)[j]);
    }
}

/// Whether the doctored conversation goes on from `before` to `after` as the message asks for: a
/// corrupted one is replaced by a pair of messages, a result that answers one goes, and every
/// other stays, as it is where it calls no tool and with the arguments of its calls written anew
/// where it does.
pub open spec fn goes_on(
    ms: Seq<JsonV>,
    m: JsonV,
    before: Seq<JsonV>,
    after: Seq<JsonV>,
) -> bool {
    if corrupted(m) {
        &&& after.len() == before.len() + 2
        &&& after.take(before.len() as int) == before
        &&& after[before.len() as int].get("role"@) == Some(JsonV::Str("assistant"@))
        &&& after[before.len() as int].get("content"@) == Some(
            JsonV::Str(
                "[tool call to "@ + (if named(listed(m)).len() == 1 {
                    named(listed(m))[0]
                } else {
                    join(named(listed(m)), ", "@) + " (and possibly others)"@
                })
                    + " failed: arguments were corrupted during streaming and could not be parsed]"@,
            ),
        )
        &&& after.last().get("role"@) == Some(JsonV::Str("user"@))
    } else if answers_lost(ms, m) {
        after == before
    } else if m.get("role"@) == Some(JsonV::Str("assistant"@)) && m.get("tool_calls"@) is Some {
        &&& after == before.push(after.last())
        &&& after.len() > 0
        &&& rewritten(m, after.last())
    } else {
        after == before.push(m)
    }
}

/// Message by message, the doctored conversation goes on as each asks for, and by nothing else.
pub proof fn lemma_each_message_is_treated(ms: Seq<JsonV>, i: int)
    requires
        0 <= i < ms.len(),
    ensures
        ({
            let ids = orphans(ms, ms.len() as int);
            &&& doctored(ms, ids, 0).len() == 0
            &&& goes_on(ms, ms[i], doctored(ms, ids, i), doctored(ms, ids, i + 1))
        }),
{
    let ids = orphans(ms, ms.len() as int);
    let m = ms[i];
    let before = doctored(ms, ids, i);
    let after = doctored(ms, ids, i + 1);
    lemma_corrupted(m);
    lemma_answers(ms, m);
    assert(after == before + treated(m, ids));
    if corrupted(m) {
        let x = failure_note(tool_names(m));
        let y = retry_note();
        lemma_named(calls_of(m), calls_of(m).len() as int);
        assert(calls_of(m).take(calls_of(m).len() as int) =~= calls_of(m));
        reveal_strlit("role");
        reveal_strlit("content");
        assert("role"@.len() == 4 && "content"@.len() == 7);
        assert(keys_once(x->Object_0));
        assert(keys_once(y->Object_0));
        lemma_get_entry(x->Object_0, 0);
        lemma_get_entry(x->Object_0, 1);
        lemma_get_entry(y->Object_0, 0);
        assert(after.take(before.len() as int) =~= before);
        assert(after[before.len() as int] == x);
        assert(after.last() == y);
    } else if answers_lost(ms, m) {
        assert(before + Seq::<JsonV>::empty() =~= before);
    } else {
        assert(after =~= before.push(canonical(m)));
        if calls_tools(m) {
            lemma_rewritten(m);
        }
    }
}

/// A tool result that answers no call of a corrupted message stays in the doctored conversation,
/// as it is and in its place, whatever else is repaired.
pub proof fn lemma_other_results_stay(ms: Seq<JsonV>, i: int)
    requires
        0 <= i < ms.len(),
        ms[i].get("role"@) == Some(JsonV::Str("tool"@)),
        ms[i].get("tool_call_id"@) matches Some(JsonV::Str(id)) ==> !lost(ms, id),
    ensures
        ({
            let ids = orphans(ms, ms.len() as int);
            doctored(ms, ids, i + 1) == doctored(ms, ids, i).push(ms[i])
        }),
{
    lemma_each_message_is_treated(ms, i);
    reveal_strlit("tool");
    reveal_strlit("assistant");
    assert("tool"@.len() == 4 && "assistant"@.len() == 9);
}

/// The messages that a repair names are the corrupted ones, in their order, each with the tools
/// that it calls.
pub proof fn lemma_repairs_name_the_corrupted(ms: Seq<JsonV>, i: int)
    requires
        0 <= i < ms.len(),
    ensures
        repaired(ms, 0).len() == 0,
        repaired(ms, i + 1) == if corrupted(ms[i]) {
            repaired(ms, i).push(RepairV { index: i, names: named(listed(ms[i])) })
        } else {
            repaired(ms, i)
        },
{
    let m = ms[i];
    lemma_corrupted(m);
    lemma_named(calls_of(m), calls_of(m).len() as int);
    assert(calls_of(m).take(calls_of(m).len() as int) =~= calls_of(m));
}

} // verus!
