//! What holds of every conversation.

use crate::json::{
    lemma_get_entry, lemma_get_none, lemma_get_removed, lemma_get_removed_other, lemma_get_set,
    lemma_get_set_other, JsonV,
};
use crate::state::{
    call_ids, has_role, in_order, outgoing, push_hash, rank, ranked, reordered, streak, system_msg,
    tool_calls_msg, tool_msg, trailing, unranked, user_msg, StateV,
};
use crate::text::dec;
use vstd::multiset::Multiset;
use vstd::prelude::*;
use vstd::seq_lib::lemma_multiset_commutative;

verus! {

// ---- the order of tool results

/// Where a result belongs: the position of its call, or behind all of them.
pub open spec fn place(order: Seq<Seq<char>>, m: JsonV) -> int {
    match rank(order, m) {
        Some(k) => k,
        None => order.len() as int,
    }
}

/// The multiset that holds `x` once where `yes` holds.
spec fn only_if(x: JsonV, yes: bool) -> Multiset<JsonV> {
    if yes {
        Multiset::singleton(x)
    } else {
        Multiset::empty()
    }
}

proof fn lemma_filter_push(s: Seq<JsonV>, x: JsonV, p: spec_fn(JsonV) -> bool)
    ensures
        s.push(x).filter(p) == if p(x) {
            s.filter(p).push(x)
        } else {
            s.filter(p)
        },
        s.push(x).filter(p).to_multiset() == s.filter(p).to_multiset().add(only_if(x, p(x))),
{
    reveal(Seq::filter);
    assert(s.push(x).drop_last() =~= s);
    s.filter(p).to_multiset_ensures();
    if p(x) {
        assert(s.filter(p).to_multiset().insert(x) =~= s.filter(p).to_multiset().add(
            Multiset::singleton(x),
        ));
    } else {
        assert(s.filter(p).to_multiset() =~= s.filter(p).to_multiset().add(Multiset::empty()));
    }
}

proof fn lemma_in_order_push(s: Seq<JsonV>, x: JsonV, order: Seq<Seq<char>>, k: int)
    requires
        0 <= k,
    ensures
        in_order(s.push(x), order, k).to_multiset() == in_order(s, order, k).to_multiset().add(
            only_if(x, rank(order, x) matches Some(r) && r < k && 0 <= r),
        ),
    decreases k,
{
    order.index_of_first_ensures(x.str_or("tool_call_id"@, Seq::empty()));
    let yes = |n: int| rank(order, x) matches Some(r) && 0 <= r < n;
    if k == 0 {
        assert(in_order(s, order, 0).to_multiset() =~= in_order(s, order, 0).to_multiset().add(
            Multiset::empty(),
        ));
    } else {
        lemma_in_order_push(s, x, order, k - 1);
        let p = |m: JsonV| rank(order, m) == Some(k - 1);
        lemma_filter_push(s, x, p);
        let (a, b) = (in_order(s, order, k - 1), ranked(s, order, k - 1));
        let (a2, b2) = (in_order(s.push(x), order, k - 1), ranked(s.push(x), order, k - 1));
        lemma_multiset_commutative(a, b);
        lemma_multiset_commutative(a2, b2);
        assert((a2 + b2).to_multiset() =~= (a + b).to_multiset().add(
            only_if(x, rank(order, x) matches Some(r) && r < k && 0 <= r),
        ));
    }
}

/// Putting results into order neither loses nor adds any.
pub proof fn lemma_reordered_permutes(s: Seq<JsonV>, order: Seq<Seq<char>>)
    ensures
        reordered(s, order).to_multiset() == s.to_multiset(),
        reordered(s, order).len() == s.len(),
    decreases s.len(),
{
    let n = order.len() as int;
    if s.len() == 0 {
        lemma_in_order_empty(s, order, n);
        assert(unranked(s, order) =~= Seq::empty()) by {
            reveal(Seq::filter);
        }
        assert(reordered(s, order) =~= s);
    } else {
        let t = s.drop_last();
        let x = s.last();
        assert(s =~= t.push(x));
        lemma_reordered_permutes(t, order);
        lemma_in_order_push(t, x, order, n);
        let p = |m: JsonV| rank(order, m) is None;
        lemma_filter_push(t, x, p);
        order.index_of_first_ensures(x.str_or("tool_call_id"@, Seq::empty()));
        let (a, b) = (in_order(t, order, n), unranked(t, order));
        let (a2, b2) = (in_order(s, order, n), unranked(s, order));
        lemma_multiset_commutative(a, b);
        lemma_multiset_commutative(a2, b2);
        t.to_multiset_ensures();
        assert((a2 + b2).to_multiset() =~= (a + b).to_multiset().insert(x));
    }
    reordered(s, order).to_multiset_ensures();
    s.to_multiset_ensures();
}

proof fn lemma_in_order_empty(s: Seq<JsonV>, order: Seq<Seq<char>>, k: int)
    requires
        s.len() == 0,
        0 <= k,
    ensures
        in_order(s, order, k) == Seq::<JsonV>::empty(),
    decreases k,
{
    if k > 0 {
        lemma_in_order_empty(s, order, k - 1);
        assert(ranked(s, order, k - 1) =~= Seq::empty()) by {
            reveal(Seq::filter);
        }
    }
}

proof fn lemma_in_order_sorted(s: Seq<JsonV>, order: Seq<Seq<char>>, k: int)
    requires
        0 <= k <= order.len(),
    ensures
        forall|i: int|
            0 <= i < in_order(s, order, k).len() ==> 0 <= place(
                order,
                #[trigger] in_order(s, order, k)[i],
            ) < k,
        forall|i: int, j: int|
            0 <= i < j < in_order(s, order, k).len() ==> place(
                order,
                #[trigger] in_order(s, order, k)[i],
            ) <= place(order, #[trigger] in_order(s, order, k)[j]),
    decreases k,
{
    if k > 0 {
        lemma_in_order_sorted(s, order, k - 1);
        let p = |m: JsonV| rank(order, m) == Some(k - 1);
        let head = in_order(s, order, k - 1);
        let tail = ranked(s, order, k - 1);
        let all = in_order(s, order, k);
        assert forall|i: int| 0 <= i < tail.len() implies place(order, #[trigger] tail[i])
            == k - 1 by {
            s.lemma_filter_pred(p, i);
        }
        assert forall|i: int| 0 <= i < all.len() implies 0 <= place(order, #[trigger] all[i])
            < k by {
            if i < head.len() {
                assert(all[i] == head[i]);
            } else {
                assert(all[i] == tail[i - head.len()]);
            }
        }
        assert forall|i: int, j: int| 0 <= i < j < all.len() implies place(order, #[trigger] all[i])
            <= place(order, #[trigger] all[j]) by {
            if j < head.len() {
                assert(all[i] == head[i] && all[j] == head[j]);
            } else {
                assert(all[j] == tail[j - head.len()]);
                if i < head.len() {
                    assert(all[i] == head[i]);
                } else {
                    assert(all[i] == tail[i - head.len()]);
                }
            }
        }
    }
}

/// The results come in the order of their calls; what answers no call comes last.
pub proof fn lemma_reordered_sorted(s: Seq<JsonV>, order: Seq<Seq<char>>)
    ensures
        forall|i: int, j: int|
            0 <= i < j < reordered(s, order).len() ==> place(
                order,
                #[trigger] reordered(s, order)[i],
            ) <= place(order, #[trigger] reordered(s, order)[j]),
{
    let n = order.len() as int;
    lemma_in_order_sorted(s, order, n);
    let p = |m: JsonV| rank(order, m) is None;
    let head = in_order(s, order, n);
    let tail = unranked(s, order);
    let all = reordered(s, order);
    assert forall|i: int| 0 <= i < tail.len() implies place(order, #[trigger] tail[i]) == n by {
        s.lemma_filter_pred(p, i);
    }
    assert forall|i: int, j: int| 0 <= i < j < all.len() implies place(order, #[trigger] all[i])
        <= place(order, #[trigger] all[j]) by {
        if j < head.len() {
            assert(all[i] == head[i] && all[j] == head[j]);
        } else {
            assert(all[j] == tail[j - head.len()]);
            if i < head.len() {
                assert(all[i] == head[i]);
            } else {
                assert(all[i] == tail[i - head.len()]);
            }
        }
    }
}

/// When a batch is answered, everything before its results stays where it was, and the
/// results are the same ones, in the order of the calls.
pub proof fn lemma_results_follow_calls(s: StateV)
    requires
        0 < s.tool_call_order.len() <= s.messages.len(),
    ensures
        ({
            let cut = s.messages.len() - s.tool_call_order.len();
            let before = s.messages.skip(cut);
            let after = s.reorder().messages.skip(cut);
            &&& s.reorder().messages.len() == s.messages.len()
            &&& s.reorder().messages.take(cut) == s.messages.take(cut)
            &&& after.to_multiset() == before.to_multiset()
            &&& forall|i: int, j: int|
                0 <= i < j < after.len() ==> place(s.tool_call_order, #[trigger] after[i])
                    <= place(s.tool_call_order, #[trigger] after[j])
        }),
{
    let cut = s.messages.len() - s.tool_call_order.len();
    let before = s.messages.skip(cut);
    lemma_reordered_permutes(before, s.tool_call_order);
    lemma_reordered_sorted(before, s.tool_call_order);
    let r = reordered(before, s.tool_call_order);
    assert(s.reorder().messages =~= s.messages.take(cut) + r);
    assert(s.reorder().messages.skip(cut) =~= r);
    assert(s.reorder().messages.take(cut) =~= s.messages.take(cut));
}

// ---- pending calls

/// The state after the calls of `done` are resolved, in that order.
pub open spec fn resolve_each(s: StateV, done: Seq<Seq<char>>) -> StateV
    decreases done.len(),
{
    if done.len() == 0 {
        s
    } else {
        resolve_each(s, done.drop_last()).resolve(done.last())
    }
}

proof fn lemma_resolve_each_pending(s: StateV, done: Seq<Seq<char>>)
    ensures
        resolve_each(s, done).pending_tool_calls == s.pending_tool_calls.difference(done.to_set()),
    decreases done.len(),
{
    if done.len() == 0 {
        assert(done.to_set() =~= Set::empty());
        assert(s.pending_tool_calls.difference(Set::empty()) =~= s.pending_tool_calls);
    } else {
        let t = done.drop_last();
        lemma_resolve_each_pending(s, t);
        assert forall|x: Seq<char>| done.to_set().contains(x) == (t.to_set().contains(x) || x
            == done.last()) by {
            if done.contains(x) {
                let i = choose|i: int| 0 <= i < done.len() && done[i] == x;
                if i < t.len() {
                    assert(t[i] == x);
                }
            }
            if t.contains(x) {
                let i = choose|i: int| 0 <= i < t.len() && t[i] == x;
                assert(done[i] == x);
            }
            if x == done.last() {
                assert(done[done.len() - 1] == x);
            }
        }
        assert(resolve_each(s, done).pending_tool_calls =~= s.pending_tool_calls.difference(
            done.to_set(),
        ));
    }
}

/// A batch is complete once each of its calls is resolved, in whatever order, and not
/// before.
pub proof fn lemma_batch_completes(s: StateV, calls: Seq<JsonV>, done: Seq<Seq<char>>)
    requires
        s.all_resolved(),
    ensures
        resolve_each(s.add_tool_calls(calls), done).all_resolved() <==> call_ids(
            calls,
        ).to_set().subset_of(done.to_set()),
{
    let t = s.add_tool_calls(calls);
    lemma_resolve_each_pending(t, done);
    let ids = call_ids(calls).to_set();
    assert(t.pending_tool_calls =~= ids);
    let left = ids.difference(done.to_set());
    if ids.subset_of(done.to_set()) {
        assert(left =~= Set::empty());
    } else {
        let x = choose|x: Seq<char>| ids.contains(x) && !done.to_set().contains(x);
        assert(left.contains(x));
    }
}

// ---- what the model sees

/// No message is sent with its reasoning.
pub proof fn lemma_reasoning_is_not_sent(s: StateV, system: Seq<char>, i: int)
    requires
        0 <= i < s.sent_with(system).len(),
    ensures
        s.sent_with(system)[i].get("reasoning"@) is None,
{
    let body = s.messages.map_values(|m: JsonV| outgoing(m));
    let k = if system.len() == 0 {
        i
    } else {
        i - 1
    };
    if k < 0 {
        reveal_strlit("reasoning");
        reveal_strlit("role");
        reveal_strlit("content");
        assert("reasoning"@.len() == 9 && "role"@.len() == 4 && "content"@.len() == 7);
        reveal_with_fuel(crate::json::key_from, 3);
    } else {
        assert(s.sent_with(system)[i] == body[k]);
        lemma_get_removed(s.messages[k], "reasoning"@);
    }
}

/// Everything but the reasoning is sent: each message in its place, with what stands under
/// every other key of it.
pub proof fn lemma_rest_is_sent(s: StateV, system: Seq<char>, i: int, k: Seq<char>)
    requires
        0 <= i < s.messages.len(),
        k != "reasoning"@,
    ensures
        ({
            let at = if system.len() == 0 {
                i
            } else {
                i + 1
            };
            &&& s.sent_with(system).len() == s.messages.len() + (at - i)
            &&& s.sent_with(system)[at].get(k) == s.messages[i].get(k)
            &&& s.messages[i] is Object <==> s.sent_with(system)[at] is Object
            &&& !(s.messages[i] is Object) ==> s.sent_with(system)[at] == s.messages[i]
        }),
{
    lemma_get_removed_other(s.messages[i], "reasoning"@, k);
    let body = s.messages.map_values(|m: JsonV| outgoing(m));
    assert(body[i] == outgoing(s.messages[i]));
}

/// The system message, where there is one, is sent before all others.
pub proof fn lemma_system_is_sent_first(s: StateV, system: Seq<char>)
    requires
        system.len() > 0,
    ensures
        s.sent_with(system)[0].get("role"@) == Some(JsonV::Str("system"@)),
        s.sent_with(system)[0].get("content"@) == Some(JsonV::Str(system)),
{
    lemma_role_and_content("system"@, system);
    assert(s.sent_with(system)[0] == system_msg(system));
}

/// What stands in a message of a role and a text.
proof fn lemma_role_and_content(role: Seq<char>, content: Seq<char>)
    ensures
        ({
            let m = crate::json::obj2_v("role"@, JsonV::Str(role), "content"@, JsonV::Str(content));
            &&& m.get("role"@) == Some(JsonV::Str(role))
            &&& m.get("content"@) == Some(JsonV::Str(content))
            &&& m.get("reasoning"@) is None
            &&& m.get("tool_calls"@) is None
            &&& m is Object
        }),
{
    reveal_strlit("role");
    reveal_strlit("content");
    reveal_strlit("reasoning");
    reveal_strlit("tool_calls");
    assert("role"@.len() == 4 && "content"@.len() == 7 && "reasoning"@.len() == 9
        && "tool_calls"@.len() == 10);
    let o = crate::json::obj2_v(
        "role"@,
        JsonV::Str(role),
        "content"@,
        JsonV::Str(content),
    )->Object_0;
    lemma_get_entry(o, 0);
    lemma_get_entry(o, 1);
    lemma_get_none(o, "reasoning"@);
    lemma_get_none(o, "tool_calls"@);
}

/// The result of a call is recorded at the end as it came, under the id of its call and the
/// name of its tool, a failure marked as an error; nothing else changes.
pub proof fn lemma_result_is_recorded(
    s: StateV,
    id: Seq<char>,
    name: Seq<char>,
    content: Seq<char>,
    success: bool,
)
    ensures
        ({
            let t = s.add_tool_result(id, name, content, success);
            let m = t.messages.last();
            &&& t.messages.len() == s.messages.len() + 1
            &&& t.messages.drop_last() == s.messages
            &&& m.get("role"@) == Some(JsonV::Str("tool"@))
            &&& m.get("tool_call_id"@) == Some(JsonV::Str(id))
            &&& m.get("name"@) == Some(JsonV::Str(name))
            &&& success ==> m.get("content"@) == Some(JsonV::Str(content))
            &&& !success ==> m.get("content"@) == Some(JsonV::Str("Error: "@ + content))
            &&& t == (StateV { messages: t.messages, ..s })
        }),
{
    let t = s.add_tool_result(id, name, content, success);
    reveal_strlit("role");
    reveal_strlit("content");
    reveal_strlit("name");
    reveal_strlit("tool_call_id");
    let o = tool_msg(id, name, content, success)->Object_0;
    assert(o[0].0.len() == 4 && o[1].0.len() == 12 && o[2].0.len() == 4 && o[3].0.len() == 7);
    assert(o[0].0[0] == 'r' && o[2].0[0] == 'n');
    lemma_get_entry(o, 0);
    lemma_get_entry(o, 1);
    lemma_get_entry(o, 2);
    lemma_get_entry(o, 3);
    assert(t.messages.drop_last() =~= s.messages);
}

/// A text of the user is recorded at the end as it came; nothing else changes but that the
/// streamed reasoning is dropped.
pub proof fn lemma_user_is_recorded(s: StateV, content: Seq<char>)
    ensures
        ({
            let t = s.add_user(content);
            &&& t.messages.len() == s.messages.len() + 1
            &&& t.messages.drop_last() == s.messages
            &&& t.messages.last().get("role"@) == Some(JsonV::Str("user"@))
            &&& t.messages.last().get("content"@) == Some(JsonV::Str(content))
            &&& t == (StateV { messages: t.messages, reasoning: Seq::empty(), ..s })
        }),
{
    lemma_role_and_content("user"@, content);
    assert(s.add_user(content).messages.drop_last() =~= s.messages);
}

/// A text of the user that follows another one is added to it on a line of its own, and
/// changes no other message and nothing else in that one; after any other message it is
/// recorded like any text of the user.
pub proof fn lemma_user_is_merged(s: StateV, content: Seq<char>, k: Seq<char>)
    ensures
        ({
            let t = s.merge_user(content);
            let last = s.messages.last();
            let follows = s.messages.len() > 0 && last.get("role"@) == Some(JsonV::Str("user"@))
                && last.get("content"@) matches Some(JsonV::Str(_));
            &&& follows ==> {
                &&& t.messages.len() == s.messages.len()
                &&& t.messages.drop_last() == s.messages.drop_last()
                &&& t.messages.last().get("content"@) == Some(
                    JsonV::Str(last.get("content"@)->0->Str_0 + "\n"@ + content),
                )
                &&& k != "content"@ ==> t.messages.last().get(k) == last.get(k)
            }
            &&& !follows ==> t == s.add_user(content)
            &&& t == (StateV { messages: t.messages, reasoning: Seq::empty(), ..s })
        }),
{
    let last = s.messages.last();
    if s.messages.len() > 0 && last is Object && last.str_at("content"@) is Some {
        let v = JsonV::Str(last.str_at("content"@)->0 + "\n"@ + content);
        lemma_get_set(last, "content"@, v);
        if k != "content"@ {
            lemma_get_set_other(last, "content"@, v, k);
        }
        assert(s.messages.update(s.messages.len() - 1, last.set("content"@, v)).drop_last()
            =~= s.messages.drop_last());
    }
}

/// A text of the assistant is recorded at the end as it came, with the reasoning that was
/// streamed before it; what was streamed starts afresh.
pub proof fn lemma_assistant_is_recorded(s: StateV, content: Seq<char>)
    ensures
        ({
            let t = s.add_assistant(content);
            let m = t.messages.last();
            &&& t.messages.len() == s.messages.len() + 1
            &&& t.messages.drop_last() == s.messages
            &&& m.get("role"@) == Some(JsonV::Str("assistant"@))
            &&& m.get("content"@) == Some(JsonV::Str(content))
            &&& m.get("tool_calls"@) is None
            &&& s.reasoning.len() > 0 ==> m.get("reasoning"@) == Some(JsonV::Str(s.reasoning))
            &&& s.reasoning.len() == 0 ==> m.get("reasoning"@) is None
            &&& t == (StateV {
                messages: t.messages,
                reasoning: Seq::empty(),
                partial: Seq::empty(),
                ..s
            })
        }),
{
    lemma_role_and_content("assistant"@, content);
    let m = crate::json::obj2_v(
        "role"@,
        JsonV::Str("assistant"@),
        "content"@,
        JsonV::Str(content),
    );
    reveal_strlit("role");
    reveal_strlit("content");
    reveal_strlit("reasoning");
    reveal_strlit("tool_calls");
    assert("role"@.len() == 4 && "content"@.len() == 7 && "reasoning"@.len() == 9
        && "tool_calls"@.len() == 10);
    let r = JsonV::Str(s.reasoning);
    lemma_get_set(m, "reasoning"@, r);
    lemma_get_set_other(m, "reasoning"@, r, "role"@);
    lemma_get_set_other(m, "reasoning"@, r, "content"@);
    lemma_get_set_other(m, "reasoning"@, r, "tool_calls"@);
    assert(s.add_assistant(content).messages.drop_last() =~= s.messages);
}

/// A batch of calls is recorded at the end as it came, with the text and the reasoning that
/// were streamed before it. From then on exactly the calls of the batch are pending besides
/// those that were, each under its own id, and their order is kept.
pub proof fn lemma_calls_are_recorded(s: StateV, calls: Seq<JsonV>)
    ensures
        ({
            let t = s.add_tool_calls(calls);
            let m = t.messages.last();
            &&& t.messages.len() == s.messages.len() + 1
            &&& t.messages.drop_last() == s.messages
            &&& m.get("role"@) == Some(JsonV::Str("assistant"@))
            &&& m.get("tool_calls"@) == Some(JsonV::Array(calls))
            &&& s.partial.len() > 0 ==> m.get("content"@) == Some(JsonV::Str(s.partial))
            &&& s.partial.len() == 0 ==> m.get("content"@) is None
            &&& s.reasoning.len() > 0 ==> m.get("reasoning"@) == Some(JsonV::Str(s.reasoning))
            &&& s.reasoning.len() == 0 ==> m.get("reasoning"@) is None
            &&& t.tool_call_order.len() == calls.len()
            &&& forall|i: int|
                0 <= i < calls.len() ==> match (#[trigger] calls[i]).get("id"@) {
                    Some(JsonV::Str(id)) => t.tool_call_order[i] == if id.len() > 0 {
                        id
                    } else {
                        "__idx_"@ + dec(i)
                    },
                    _ => t.tool_call_order[i] == "__idx_"@ + dec(i),
                }
            &&& forall|x: Seq<char>| #[trigger]
                t.pending_tool_calls.contains(x) <==> s.pending_tool_calls.contains(x)
                    || t.tool_call_order.contains(x)
            &&& t == (StateV {
                messages: t.messages,
                reasoning: Seq::empty(),
                partial: Seq::empty(),
                tool_call_order: t.tool_call_order,
                pending_tool_calls: t.pending_tool_calls,
                ..s
            })
        }),
{
    let t = s.add_tool_calls(calls);
    reveal_strlit("role");
    reveal_strlit("content");
    reveal_strlit("reasoning");
    reveal_strlit("tool_calls");
    assert("role"@.len() == 4 && "content"@.len() == 7 && "reasoning"@.len() == 9
        && "tool_calls"@.len() == 10);
    let m = crate::json::obj2_v(
        "role"@,
        JsonV::Str("assistant"@),
        "tool_calls"@,
        JsonV::Array(calls),
    );
    let o = m->Object_0;
    lemma_get_entry(o, 0);
    lemma_get_entry(o, 1);
    lemma_get_none(o, "content"@);
    lemma_get_none(o, "reasoning"@);
    let c = JsonV::Str(s.partial);
    let r = JsonV::Str(s.reasoning);
    lemma_get_set(m, "content"@, c);
    lemma_get_set_other(m, "content"@, c, "role"@);
    lemma_get_set_other(m, "content"@, c, "tool_calls"@);
    lemma_get_set_other(m, "content"@, c, "reasoning"@);
    let n = if s.partial.len() == 0 {
        m
    } else {
        m.set("content"@, c)
    };
    lemma_get_set(n, "reasoning"@, r);
    lemma_get_set_other(n, "reasoning"@, r, "role"@);
    lemma_get_set_other(n, "reasoning"@, r, "content"@);
    lemma_get_set_other(n, "reasoning"@, r, "tool_calls"@);
    assert(t.messages.last() == tool_calls_msg(calls, s.partial, s.reasoning));
    assert(t.messages.drop_last() =~= s.messages);
    assert forall|x: Seq<char>| #[trigger]
        t.pending_tool_calls.contains(x) <==> s.pending_tool_calls.contains(x)
            || t.tool_call_order.contains(x) by {
        assert(call_ids(calls).to_set().contains(x) <==> call_ids(calls).contains(x));
    }
}

/// Resolving a call takes it, and no other, from the pending ones, and keeps every message.
pub proof fn lemma_call_is_resolved(s: StateV, id: Seq<char>)
    ensures
        ({
            let t = s.resolve(id);
            &&& forall|x: Seq<char>| #[trigger]
                t.pending_tool_calls.contains(x) <==> s.pending_tool_calls.contains(x) && x != id
            &&& t.messages.to_multiset() == s.messages.to_multiset()
            &&& t.messages.len() == s.messages.len()
            &&& (exists|x: Seq<char>| #[trigger] s.pending_tool_calls.contains(x) && x != id)
                ==> t.messages == s.messages && t.tool_call_order == s.tool_call_order
            &&& t == (StateV {
                messages: t.messages,
                tool_call_order: t.tool_call_order,
                pending_tool_calls: t.pending_tool_calls,
                ..s
            })
        }),
{
    let t = s.resolve(id);
    let next = StateV { pending_tool_calls: s.pending_tool_calls.remove(id), ..s };
    let n = s.tool_call_order.len();
    if next.all_resolved() && n > 0 && n <= s.messages.len() {
        let cut = s.messages.len() - n;
        let before = s.messages.skip(cut);
        lemma_results_follow_calls(next);
        let after = t.messages.skip(cut);
        assert(t.messages =~= s.messages.take(cut) + after);
        assert(s.messages =~= s.messages.take(cut) + before);
        lemma_multiset_commutative(s.messages.take(cut), before);
        lemma_multiset_commutative(s.messages.take(cut), after);
    }
    if exists|x: Seq<char>| #[trigger] s.pending_tool_calls.contains(x) && x != id {
        let x = choose|x: Seq<char>| #[trigger] s.pending_tool_calls.contains(x) && x != id;
        assert(next.pending_tool_calls.contains(x));
    }
}

/// After a restart the model sees the new instruction and nothing of what was before.
pub proof fn lemma_restart_is_clean(s: StateV, instruction: Seq<char>, system: Seq<char>)
    ensures
        s.clear_for_restart().add_user(instruction).messages == seq![user_msg(instruction)],
        s.clear_for_restart().add_user(instruction).sent_with(system) == (StateV {
            messages: seq![user_msg(instruction)],
            ..s
        }).sent_with(system),
        s.clear_for_restart().idle(),
        s.clear_for_restart().iteration_count == 0,
        s.clear_for_restart().pending_messages.len() == 0,
        s.clear_for_restart().todos.len() == 0,
{
    assert(s.clear_for_restart().add_user(instruction).messages =~= seq![user_msg(instruction)]);
}

// ---- loops

/// Three turns with the same signature in a row make a streak of at least three.
pub proof fn lemma_three_same_turns(h: Seq<u64>, x: u64)
    ensures
        streak(push_hash(push_hash(push_hash(h, x), x), x)) >= 3,
{
    let s = push_hash(push_hash(push_hash(h, x), x), x);
    let n = s.len() as int;
    assert(n >= 3);
    assert(s[n - 1] == x && s[n - 2] == x && s[n - 3] == x);
    reveal_with_fuel(trailing, 4);
    crate::state::lemma_streak_bounds(s, x, n - 3);
}

/// A collapse keeps what was before the loop and the last turn with all that follows it,
/// puts one note of the system between, and breaks the streak.
pub proof fn lemma_collapse_keeps_ends(s: StateV)
    requires
        s.loops(),
    ensures
        ({
            let (from, to) = s.loop_range();
            let c = s.collapse();
            &&& 0 <= from <= to < s.messages.len()
            &&& c.messages.take(from) == s.messages.take(from)
            &&& c.messages.skip(from + 1) == s.messages.skip(to)
            &&& c.messages.len() == s.messages.len() - s.collapse_count() + 1
            &&& has_role(c.messages[from], "system"@)
            &&& streak(c.hashes) == 0
            &&& !c.loops()
        }),
{
    let (from, to) = s.loop_range();
    let c = s.collapse();
    crate::state::lemma_positions(s.messages, s.messages.len() as int);
    assert(c.messages.take(from) =~= s.messages.take(from));
    assert(c.messages.skip(from + 1) =~= s.messages.skip(to));
}

// ---- the order of answers

/// Whether a message answers the call with the id.
pub open spec fn answers(m: JsonV, id: Seq<char>) -> bool {
    m.get("tool_call_id"@) == Some(JsonV::Str(id))
}

proof fn lemma_place_is(order: Seq<Seq<char>>, m: JsonV, a: int)
    requires
        order.no_duplicates(),
        0 <= a < order.len(),
        answers(m, order[a]),
    ensures
        place(order, m) == a,
{
    let id = order[a];
    order.index_of_first_ensures(id);
    assert(order.contains(id));
}

/// Once the last call of a batch is answered, the answers stand in the order of the calls, in
/// whatever order they came in; and what answers none of them stands behind.
pub proof fn lemma_answers_follow_calls(s: StateV, id: Seq<char>, i: int, j: int, a: int, b: int)
    requires
        s.tool_call_order.no_duplicates(),
        forall|k: int| 0 <= k < s.tool_call_order.len() ==> (#[trigger] s.tool_call_order[k]).len()
            > 0,
        forall|x: Seq<char>| #[trigger] s.pending_tool_calls.contains(x) ==> x == id,
        0 < s.tool_call_order.len() <= s.messages.len(),
        s.messages.len() - s.tool_call_order.len() <= i < j < s.messages.len(),
        0 <= b < s.tool_call_order.len(),
        answers(s.resolve(id).messages[j], s.tool_call_order[b]),
    ensures
        0 <= a < s.tool_call_order.len() && answers(
            s.resolve(id).messages[i],
            s.tool_call_order[a],
        ) ==> a <= b,
        exists|k: int|
            0 <= k < s.tool_call_order.len() && answers(
                s.resolve(id).messages[i],
                #[trigger] s.tool_call_order[k],
            ),
        s.resolve(id).tool_call_order.len() == 0,
{
    let next = StateV { pending_tool_calls: s.pending_tool_calls.remove(id), ..s };
    assert(next.pending_tool_calls =~= Set::empty());
    let order = s.tool_call_order;
    let cut = s.messages.len() - order.len();
    lemma_results_follow_calls(next);
    let t = s.resolve(id);
    let after = t.messages.skip(cut);
    let (x, y) = (after[i - cut], after[j - cut]);
    assert(x == t.messages[i] && y == t.messages[j]);
    lemma_place_is(order, y, b);
    assert(place(order, x) <= place(order, y));
    if 0 <= a < order.len() && answers(x, order[a]) {
        lemma_place_is(order, x, a);
    }
    let given = x.str_or("tool_call_id"@, Seq::empty());
    order.index_of_first_ensures(given);
    let k = place(order, x);
    assert(order[k] == given);
    assert(order[k].len() > 0);
    assert(answers(x, order[k]));
}

// ---- the context

/// What is left of a context is its window without what the last turn used of it; nothing is known
/// where either is not, or where more was used than there is.
pub proof fn lemma_context_left(s: StateV)
    ensures
        match (s.context_window, s.last_usage) {
            (Some(w), Some(u)) => match u.input_tokens {
                Some(n) => if n <= w {
                    s.context_remaining() matches Some(left) && left + n == w
                } else {
                    s.context_remaining() is None
                },
                None => s.context_remaining() is None,
            },
            _ => s.context_remaining() is None,
        },
        s.last_usage is None ==> s.input_tokens() == 0,
        s.last_usage matches Some(u) ==> match u.input_tokens {
            Some(n) => s.input_tokens() == n,
            None => s.input_tokens() == 0,
        },
{
}

/// A report of usage is remembered as it is; a window that it does not name stays.
pub proof fn lemma_usage_is_recorded(s: StateV, u: crate::event::Usage, window: Option<usize>)
    ensures
        ({
            let t = s.record_usage(u, window);
            &&& t.last_usage == Some(u)
            &&& window is Some ==> t.context_window == window
            &&& window is None ==> t.context_window == s.context_window
            &&& t == (StateV {
                last_usage: t.last_usage,
                context_window: t.context_window,
                ..s
            })
        }),
{
}

/// With its last call answered a batch is over, however many calls it had: none is pending and no
/// order is kept.
pub proof fn lemma_batch_is_over(s: StateV, id: Seq<char>)
    requires
        forall|x: Seq<char>| #[trigger] s.pending_tool_calls.contains(x) ==> x == id,
        s.tool_call_order.len() <= s.messages.len(),
    ensures
        s.resolve(id).all_resolved(),
        s.resolve(id).pending_tool_calls.len() == 0,
        s.resolve(id).tool_call_order.len() == 0,
{
    let next = StateV { pending_tool_calls: s.pending_tool_calls.remove(id), ..s };
    assert(next.pending_tool_calls =~= Set::empty());
}

} // verus!
