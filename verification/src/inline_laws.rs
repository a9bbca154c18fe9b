//! What an agent does with the tools that it handles itself, when it wakes up, and when it runs
//! out of iterations.

use crate::agent::{AgentActor, AgentV, EffectV};
use crate::agent_tools::{args_text, handled_inline, ToolWorld};
use crate::agent_turn::partial_result;
use crate::flow_laws::{lemma_idle, shows};
use crate::internal_tools::{rendered, OutcomeV};
use crate::json::{json_parse, keys_once, lemma_get_entry, lemma_get_none, lemma_get_set, JsonV};
use crate::json::lemma_get_set_other;
use crate::state::{call_id, call_name, StateV};
use crate::state_laws::{lemma_result_is_recorded, lemma_user_is_recorded};
use crate::text::dec;
use vstd::prelude::*;

verus! {

proof fn lemma_shown(w: AgentV, a: &AgentActor, text: Seq<char>, kind: Seq<char>, depth: usize)
    ensures
        ({
            let v = w.say(a, text, kind, depth);
            &&& v == (AgentV { out: v.out, ..w })
            &&& v.out == w.out.push(v.out.last())
            &&& v.out.len() == w.out.len() + 1
            &&& shows(v.out.last(), a.stream_output_topic@, text, kind, depth as int)
        }),
{
    reveal_strlit("type");
    reveal_strlit("depth");
    assert("type"@.len() == 4 && "depth"@.len() == 5);
    let v = w.say(a, text, kind, depth);
    assert(v.out.drop_last() =~= w.out);
    assert(v.out =~= w.out.push(v.out.last()));
    let m = a.note(text, kind);
    let o = m.meta->Object_0;
    assert(keys_once(o));
    lemma_get_entry(o, 0);
    lemma_get_none(o, "depth"@);
    lemma_get_set(m.meta, "depth"@, JsonV::Int(depth as int));
    lemma_get_set_other(m.meta, "depth"@, JsonV::Int(depth as int), "type"@);
}

/// Each of the agent's own tools does its own work; reading the todo list changes nothing and
/// shows it, and a name that is none of them is refused.
pub proof fn lemma_own_tools_work(
    w: AgentV,
    a: &AgentActor,
    name: Seq<char>,
    args: JsonV,
    world: &ToolWorld,
)
    ensures
        ({
            let r = w.internal(a, name, args, world);
            &&& name == "todo_write"@ ==> r == w.todo_write(args)
            &&& name == "todo_read"@ ==> r.0 == w && r.1.success && !r.1.reset && r.1.text
                == rendered(w.conv.todos) + "\n"@ + w.conv.status_line(world.percent@)
            &&& name == "restart_from_file"@ ==> r == w.restart(a, args, world)
            &&& name == "call_subagent"@ ==> r == w.call_subagent(a, args)
            &&& name == "set_context_reminder"@ ==> r == w.set_reminder(args)
            &&& name == "schedule_wake_up"@ ==> r == w.set_wake_up(args, world.now_ms)
            &&& !handled_inline(name) ==> r.0 == w && !r.1.success && !r.1.reset
        }),
{
    reveal_strlit("todo_write");
    reveal_strlit("todo_read");
    reveal_strlit("restart_from_file");
    reveal_strlit("call_subagent");
    reveal_strlit("set_context_reminder");
    reveal_strlit("schedule_wake_up");
    assert("todo_write"@.len() == 10 && "todo_read"@.len() == 9 && "restart_from_file"@.len() == 17);
    assert("call_subagent"@.len() == 13 && "set_context_reminder"@.len() == 20);
    assert("schedule_wake_up"@.len() == 16);
}

/// A call of one of the agent's own tools is announced, done, and answered under its own id.
pub proof fn lemma_own_calls(w: AgentV, a: &AgentActor, i: int, tc: JsonV, world: &ToolWorld)
    requires
        handled_inline(call_name(tc)),
        json_parse(args_text(tc)) is Some,
    ensures
        ({
            let (id, name) = (call_id(i, tc), call_name(tc));
            let u = w.announce_call(a, id, name, args_text(tc));
            let (v, o) = u.internal(a, name, json_parse(args_text(tc)).unwrap(), world);
            &&& u == (AgentV { out: u.out, ..w })
            &&& u.out == w.out.push(u.out.last())
            &&& u.out.last() matches EffectV::Publish(m) && m.payload.get("id"@) == Some(
                JsonV::Str(id),
            ) && m.payload.get("name"@) == Some(JsonV::Str(name))
            &&& w.dispatch(a, i, tc, world) == v.conclude_call(a, id, name, o, world.now_ms)
        }),
{
    let (id, name) = (call_id(i, tc), call_name(tc));
    let u = w.announce_call(a, id, name, args_text(tc));
    assert(u.out =~= w.out.push(u.out.last()));
    reveal_strlit("id");
    reveal_strlit("name");
    reveal_strlit("text");
    assert("id"@.len() == 2 && "name"@.len() == 4 && "text"@.len() == 4);
    assert("name"@[0] == 'n' && "text"@[0] == 't');
    let p = u.out.last()->Publish_0.payload->Object_0;
    assert(keys_once(p));
    lemma_get_entry(p, 0);
    lemma_get_entry(p, 1);
}

/// What one of the agent's own tools answers is recorded as the answer to its call and shown,
/// while other calls are open; where the tool wiped the conversation nothing is recorded in it.
pub proof fn lemma_own_calls_are_answered(
    w: AgentV,
    a: &AgentActor,
    id: Seq<char>,
    name: Seq<char>,
    o: OutcomeV,
    now_ms: u64,
)
    requires
        exists|x: Seq<char>| x != id && #[trigger] w.conv.pending_tool_calls.contains(x),
    ensures
        ({
            let v = w.conclude_call(a, id, name, o, now_ms);
            &&& v.conv.pending_tool_calls == w.conv.pending_tool_calls.remove(id)
            &&& v.conv == (StateV {
                messages: v.conv.messages,
                pending_tool_calls: v.conv.pending_tool_calls,
                ..w.conv
            })
            &&& v.stack == w.stack
            &&& o.reset ==> v.conv.messages == w.conv.messages
            &&& !o.reset ==> v.conv.messages.len() == w.conv.messages.len() + 1
                && v.conv.messages.drop_last() == w.conv.messages && v.conv.messages.last().get(
                "role"@,
            ) == Some(JsonV::Str("tool"@)) && v.conv.messages.last().get("tool_call_id"@) == Some(
                JsonV::Str(id),
            ) && v.conv.messages.last().get("name"@) == Some(JsonV::Str(name))
                && v.conv.messages.last().get("content"@) == Some(
                JsonV::Str(
                    if o.success {
                        o.text
                    } else {
                        "Error: "@ + o.text
                    },
                ),
            )
            &&& v.out == w.out.push(v.out.last())
            &&& shows(
                v.out.last(),
                a.stream_output_topic@,
                "  [tool_"@ + (if o.success {
                    "result"@
                } else {
                    "error"@
                }) + "] "@ + name + "("@ + id + ") => "@ + o.text,
                "LlmToolResult"@,
                w.conv.depth as int,
            )
        }),
{
    let x = choose|x: Seq<char>| x != id && #[trigger] w.conv.pending_tool_calls.contains(x);
    lemma_result_is_recorded(w.conv, id, name, o.text, o.success);
    let added = w.conv.add_tool_result(id, name, o.text, o.success);
    let c = if o.reset {
        w.conv.resolve(id)
    } else {
        added.resolve(id)
    };
    assert(w.conv.pending_tool_calls.remove(id).contains(x));
    assert(c.pending_tool_calls.contains(x));
    lemma_idle(c);
    lemma_shown(
        w.with_conv(c),
        a,
        crate::agent_tools::result_line(o.success, name, id, o.text),
        "LlmToolResult"@,
        c.depth,
    );
}

// ---- waking up

proof fn lemma_wake_ups_shown(w: AgentV, a: &AgentActor, ms: Seq<Seq<char>>, n: int)
    requires
        0 <= n <= ms.len(),
    ensures
        ({
            let v = w.show_wake_ups(a, ms, n);
            let had = w.out.len() as int;
            &&& v == (AgentV { out: v.out, ..w })
            &&& v.out.len() == had + n
            &&& v.out.take(had) == w.out
            &&& forall|i: int|
                0 <= i < n ==> shows(
                    #[trigger] v.out[had + i],
                    a.stream_output_topic@,
                    "[wake-up] "@ + ms[i],
                    "Info"@,
                    0,
                )
        }),
    decreases n,
{
    let had = w.out.len() as int;
    if n > 0 {
        lemma_wake_ups_shown(w, a, ms, n - 1);
        let u = w.show_wake_ups(a, ms, n - 1);
        let v = w.show_wake_ups(a, ms, n);
        lemma_shown(u, a, "[wake-up] "@ + ms[n - 1], "Info"@, 0);
        assert(v.out.take(had) =~= w.out);
        assert forall|i: int| 0 <= i < n implies shows(
            #[trigger] v.out[had + i],
            a.stream_output_topic@,
            "[wake-up] "@ + ms[i],
            "Info"@,
            0,
        ) by {
            if i < n - 1 {
                assert(v.out[had + i] == u.out[had + i]);
            }
        }
    } else {
        assert(w.out.take(had) =~= w.out);
    }
}

/// A timer that finds nothing due asks for nothing. One that finds wake-ups due shows each, and
/// what they say enters the conversation and is put to the model.
pub proof fn lemma_waking(w: AgentV, a: &AgentActor, now_ms: u64)
    requires
        a.max_iterations > 0,
    ensures
        ({
            let v = w.wake(a, now_ms);
            let secs = now_ms / 1000;
            let fired = w.conv.due_wake_ups(secs);
            let n = w.out.len() as int;
            &&& fired.len() == 0 ==> v == (AgentV { conv: w.conv.check_wake_ups(secs), ..w })
            &&& fired.len() > 0 && w.conv.idle() ==> v.conv.in_flight
                && v.conv.pending_messages.len() == 0 && v.conv.messages.len()
                == w.conv.messages.len() + w.conv.pending_messages.len() + fired.len()
                && v.out.last() is Request
        }),
{
    let secs = now_ms / 1000;
    let fired = w.conv.due_wake_ups(secs);
    let u = w.with_conv(w.conv.check_wake_ups(secs));
    if fired.len() > 0 && w.conv.idle() {
        let n = fired.len() as int;
        lemma_wake_ups_shown(u, a, fired, n);
        let t = u.show_wake_ups(a, fired, n);
        assert(t.conv == u.conv);
        crate::flow_laws::lemma_going_on(t, a, now_ms);
        assert(t.conv.pending_messages.len() > 0);
        lemma_idle(w.conv);
        assert(t.conv.pending_tool_calls == w.conv.pending_tool_calls);
    }
}

// ---- messages for a subagent, its end, and the limit

/// What the user says to a subagent enters its conversation in the order in which it came.
pub proof fn lemma_users_added(w: AgentV, ms: Seq<Seq<char>>, n: int)
    requires
        0 <= n <= ms.len(),
    ensures
        ({
            let v = w.add_users(ms, n);
            let had = w.conv.messages.len() as int;
            &&& v.stack == w.stack && v.out == w.out
            &&& v.conv == (StateV {
                messages: v.conv.messages,
                reasoning: v.conv.reasoning,
                ..w.conv
            })
            &&& v.conv.messages.len() == had + n
            &&& v.conv.messages.take(had) == w.conv.messages
            &&& forall|i: int|
                0 <= i < n ==> (#[trigger] v.conv.messages[had + i]).get("role"@) == Some(
                    JsonV::Str("user"@),
                ) && v.conv.messages[had + i].get("content"@) == Some(JsonV::Str(ms[i]))
        }),
    decreases n,
{
    let had = w.conv.messages.len() as int;
    if n == 0 {
        assert(w.conv.messages.take(had) =~= w.conv.messages);
    } else {
        lemma_users_added(w, ms, n - 1);
        let u = w.add_users(ms, n - 1);
        let v = w.add_users(ms, n);
        lemma_user_is_recorded(u.conv, ms[n - 1]);
        assert(v.conv.messages.take(had) =~= w.conv.messages);
        assert forall|i: int| 0 <= i < n implies (#[trigger] v.conv.messages[had + i]).get(
            "role"@,
        ) == Some(JsonV::Str("user"@)) && v.conv.messages[had + i].get("content"@) == Some(
            JsonV::Str(ms[i]),
        ) by {
            if i < n - 1 {
                assert(v.conv.messages[had + i] == u.conv.messages[had + i]);
            } else {
                assert(v.conv.messages[had + i] == v.conv.messages.last());
            }
        }
    }
}

/// The answer of a subagent with nothing left to do is its result: it goes to the parent, who
/// goes on with it. With messages of the user waiting, they come first, and the subagent goes on.
pub proof fn lemma_subagent_answers(w: AgentV, a: &AgentActor, output: Seq<char>, now_ms: u64)
    requires
        w.stack.len() > 0,
        w.conv.depth > 0,
        w.conv.all_resolved(),
    ensures
        ({
            let (v, check) = w.answered(a, output, now_ms);
            let c = w.committed(output).drained();
            let ms = w.conv.pending_messages;
            &&& !check
            &&& ms.len() == 0 ==> v == c.restored(a, output).advance(a, now_ms)
            &&& ms.len() > 0 ==> v.stack == w.stack && v.conv.in_flight && v.out.last() is Request
                && v.conv.messages.len() == c.conv.messages.len() + ms.len()
        }),
{
    let u = w.committed(output);
    crate::state_laws::lemma_assistant_is_recorded(StateV { in_flight: false, ..w.conv }, output);
    assert(u.conv.pending_messages == w.conv.pending_messages);
    assert(u.conv.pending_tool_calls == w.conv.pending_tool_calls);
    assert(u.conv.depth == w.conv.depth && u.stack == w.stack);
    let ms = w.conv.pending_messages;
    if ms.len() > 0 {
        let d = u.drained().add_users(ms, ms.len() as int);
        lemma_users_added(u.drained(), ms, ms.len() as int);
        lemma_shown(d, a, ms.last(), "UserMessageDisplayed"@, d.conv.depth);
        crate::flow_laws::lemma_asking(
            d.say(a, ms.last(), "UserMessageDisplayed"@, d.conv.depth),
            a,
        );
    }
}

/// A subagent that has used up its iterations returns what it has to its parent, and says so.
pub proof fn lemma_subagent_runs_out(w: AgentV, a: &AgentActor, now_ms: u64)
    requires
        w.stack.len() > 0,
        w.conv.depth > 0,
        w.conv.all_resolved(),
        w.conv.pending_messages.len() == 0,
        w.conv.iteration_count >= a.max_iterations,
    ensures
        exists|u: AgentV| #[trigger]
            u.restored(a, partial_result(w.conv, a.max_iterations)).advance(a, now_ms) == w.advance(
                a,
                now_ms,
            ) && u.stack == w.stack && u.conv == (StateV { surprises: u.conv.surprises, ..w.conv })
                && u.conv.surprises.len() == w.conv.surprises.len() + 1
                && u.conv.surprises.last().kind == "max_iterations"@ && u.out.len() == w.out.len()
                + 1 && shows(
                u.out.last(),
                a.stream_output_topic@,
                "[subagent] reached max iterations ("@ + dec(a.max_iterations as int)
                    + ") — returning partial"@,
                "Warning"@,
                w.conv.depth as int,
            ),
{
    let d = w.drained();
    assert(d.conv.pending_messages =~= w.conv.pending_messages);
    assert(d == w);
    let s = crate::agent_turn::limit_surprise(w.conv, a.max_iterations, now_ms);
    let v = w.with_conv(w.conv.record_surprise(s));
    let text = "[subagent] reached max iterations ("@ + dec(a.max_iterations as int)
        + ") — returning partial"@;
    lemma_shown(v, a, text, "Warning"@, v.conv.depth);
    let u = v.say(a, text, "Warning"@, v.conv.depth);
    assert(v.conv.messages == w.conv.messages);
    assert(partial_result(v.conv, a.max_iterations) == partial_result(w.conv, a.max_iterations));
    assert(u.restored(a, partial_result(w.conv, a.max_iterations)).advance(a, now_ms) == w.advance(
        a,
        now_ms,
    ));
}

/// At the top, running out of iterations is recorded as an incident.
pub proof fn lemma_limit_is_recorded(w: AgentV, a: &AgentActor, now_ms: u64)
    requires
        w.stack.len() == 0,
        w.conv.all_resolved(),
        w.conv.pending_messages.len() == 0,
        w.conv.iteration_count >= a.max_iterations,
    ensures
        ({
            let v = w.advance(a, now_ms);
            &&& v.conv == (StateV { surprises: v.conv.surprises, ..w.conv })
            &&& v.conv.surprises == w.conv.surprises.push(v.conv.surprises.last())
            &&& v.conv.surprises.last().kind == "max_iterations"@
            &&& v.conv.surprises.last().ms == now_ms
            &&& v.conv.surprises.last().trigger == "hit "@ + dec(a.max_iterations as int)
                + " iterations limit"@
        }),
{
    let d = w.drained();
    assert(d.conv.pending_messages =~= w.conv.pending_messages);
    assert(d == w);
    let v = w.advance(a, now_ms);
    assert(v.conv.surprises =~= w.conv.surprises.push(v.conv.surprises.last()));
}

} // verus!
