//! What holds of every agent.

use crate::agent::{AgentActor, AgentV, EffectV};
use crate::agent_tools::ToolWorld;
use crate::agent_turn::{limit_note, subagent_call};
use crate::json::JsonV;
use crate::state::{user_msg, StateV};
use crate::text::trim;
use vstd::prelude::*;

verus! {

/// Whether the effect asks the model.
pub open spec fn is_request(e: EffectV) -> bool {
    e is Request
}

/// While the agent is busy, a message of the user is queued behind the others: it neither
/// enters the conversation nor starts a request.
pub proof fn lemma_busy_queues(w: AgentV, a: &AgentActor, text: Seq<char>)
    requires
        !w.conv.idle(),
    ensures
        w.user_input(a, text).conv == (StateV {
            pending_messages: w.conv.pending_messages.push(text),
            ..w.conv
        }),
        w.user_input(a, text).out.len() == w.out.len() + 1,
        w.user_input(a, text).out.drop_last() == w.out,
        !is_request(w.user_input(a, text).out.last()),
{
    assert(w.user_input(a, text).out.drop_last() =~= w.out);
}

/// A message of the user that reaches an idle agent ends in a request.
pub proof fn lemma_idle_asks(w: AgentV, a: &AgentActor, text: Seq<char>)
    requires
        w.conv.idle(),
    ensures
        w.user_input(a, text).conv.in_flight,
        !w.user_input(a, text).conv.idle(),
        is_request(w.user_input(a, text).out.last()),
        w.user_input(a, text).conv.iteration_count == 0,
{
}

/// Queued messages enter the conversation in the order in which they came, none of them
/// lost.
pub proof fn lemma_queue_is_delivered_in_order(
    w: AgentV,
    a: &AgentActor,
    ms: Seq<Seq<char>>,
    n: int,
)
    requires
        0 <= n <= ms.len(),
    ensures
        w.deliver(a, ms, n).conv.messages == w.conv.messages + ms.take(n).map_values(
            |t: Seq<char>| user_msg(t),
        ),
    decreases n,
{
    let f = |t: Seq<char>| user_msg(t);
    if n == 0 {
        assert(w.conv.messages + ms.take(0).map_values(f) =~= w.conv.messages);
    } else {
        lemma_queue_is_delivered_in_order(w, a, ms, n - 1);
        assert(w.conv.messages + ms.take(n).map_values(f) =~= (w.conv.messages + ms.take(
            n - 1,
        ).map_values(f)).push(user_msg(ms[n - 1])));
    }
}

/// At the limit of iterations, with no message of the user waiting, the agent at the top
/// asks the model nothing more: it saves a handoff and says so.
pub proof fn lemma_limit_stops(w: AgentV, a: &AgentActor, now_ms: u64)
    requires
        w.wf(),
        w.stack.len() == 0,
        w.conv.all_resolved(),
        w.conv.pending_messages.len() == 0,
        w.conv.iteration_count >= a.max_iterations,
    ensures
        ({
            let r = w.advance(a, now_ms);
            &&& r.out.len() == w.out.len() + 2
            &&& r.out.take(w.out.len() as int) == w.out
            &&& r.out[w.out.len() as int] == EffectV::SaveFile {
                path: "tmp/maxiter-handoff.txt"@,
                text: w.conv.summary(10),
            }
            &&& r.out[w.out.len() as int + 1] == EffectV::Publish(
                a.note(limit_note(a.max_iterations), "Warning"@),
            )
            &&& r.conv.messages == w.conv.messages
        }),
{
    let d = w.drained();
    assert(d.conv.pending_messages =~= w.conv.pending_messages);
    assert(d == w);
    let r = w.advance(a, now_ms);
    assert(r.out.take(w.out.len() as int) =~= w.out);
}

/// A restart whose file cannot be read, or whose backup cannot be written, loses nothing.
pub proof fn lemma_failed_restart_keeps_context(
    w: AgentV,
    a: &AgentActor,
    args: JsonV,
    world: &ToolWorld,
)
    requires
        !(world.restart@ is Done),
    ensures
        w.restart(a, args, world).0 == w,
        !w.restart(a, args, world).1.success,
        !w.restart(a, args, world).1.reset,
{
}

/// A subagent starts with a fresh context of one message, one level deeper; the parent's
/// context is kept whole.
pub proof fn lemma_subagent_is_fresh(w: AgentV, a: &AgentActor, args: JsonV)
    requires
        w.wf(),
        w.conv.depth < usize::MAX,
        args.str_at("task"@) matches Some(t) && trim(t).len() > 0,
    ensures
        ({
            let (v, o) = w.call_subagent(a, args);
            let task = args.str_at("task"@)->0;
            &&& v.conv.messages == seq![user_msg(task)]
            &&& v.conv.depth == w.conv.depth + 1
            &&& v.conv.todos.len() == 0
            &&& v.conv.iteration_count == 0
            &&& v.stack.len() == w.stack.len() + 1
            &&& v.stack.last().state == w.conv
            &&& o.reset
        }),
{
    let (v, o) = w.call_subagent(a, args);
    assert(v.conv.messages =~= seq![user_msg(args.str_at("task"@)->0)]);
}

/// When a subagent returns, its parent goes on where it was: with its own messages, todo
/// list and depth, and the result as the answer to its call, however the subagent's own
/// conversation went.
pub proof fn lemma_subagent_returns(
    w: AgentV,
    a: &AgentActor,
    args: JsonV,
    sub: StateV,
    out: Seq<EffectV>,
    result: Seq<char>,
)
    requires
        w.wf(),
        w.conv.depth < usize::MAX,
        args.str_at("task"@) matches Some(t) && trim(t).len() > 0,
        subagent_call(w.conv.messages, w.conv.messages.len() as int) is Some,
    ensures
        ({
            let (v, _) = w.call_subagent(a, args);
            let ended = AgentV { conv: sub, stack: v.stack, out };
            let id = subagent_call(w.conv.messages, w.conv.messages.len() as int)->0;
            let r = ended.restored(a, result);
            &&& r.stack == w.stack
            &&& r.conv == (StateV {
                active_system: None,
                ..w.conv.add_tool_result(id, "call_subagent"@, result, true).resolve(id)
            })
            &&& r.conv.depth == w.conv.depth
            &&& r.conv.todos == w.conv.todos
        }),
{
    let (v, _) = w.call_subagent(a, args);
    let ended = AgentV { conv: sub, stack: v.stack, out };
    assert(ended.stack.drop_last() =~= w.stack);
}

} // verus!
