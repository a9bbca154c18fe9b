//! What an agent does with each thing that happens to it: what it remembers, what it tells the
//! user, and when it asks the model.

use crate::agent::{AgentActor, AgentV, EffectV};
use crate::agent_events::{state_command, tie_breaker, triage_prompt, window_of};
use crate::agent_events::StateCommandV;
use crate::agent_tools::{args_text, restart_file, ToolWorld};
use crate::agent_turn::{last_subagent_call, partial_result, subagent_call};
use crate::internal_tools::{internal_tool, restart_instruction};
use crate::json::{
    json_parse, keys_once, lemma_get_entry, lemma_get_none, lemma_get_set, lemma_get_set_other, JsonV,
};
use crate::message::{meta_with, MessageV};
use crate::state::{call_id, call_name, calls_of, StateV};
use crate::state_laws::{
    lemma_assistant_is_recorded, lemma_calls_are_recorded, lemma_user_is_recorded,
};
use crate::text::{contains, dec, join, starts_with, take_chars, trim};
use crate::tool::ToolResultV;
use vstd::prelude::*;

verus! {

/// Whether the effect publishes a text of a kind on a topic, below a depth where that is not the
/// top.
pub open spec fn shows(
    e: EffectV,
    topic: Seq<char>,
    text: Seq<char>,
    kind: Seq<char>,
    depth: int,
) -> bool {
    e matches EffectV::Publish(m) && {
        &&& m.topic == topic
        &&& m.payload == JsonV::Str(text)
        &&& m.meta.get("type"@) == Some(JsonV::Str(kind))
        &&& depth > 0 ==> m.meta.get("depth"@) == Some(JsonV::Int(depth))
        &&& depth == 0 ==> m.meta.get("depth"@) is None
    }
}

/// Whether the effect asks the model with the messages.
pub open spec fn asks_with(e: EffectV, topic: Seq<char>, messages: Seq<JsonV>) -> bool {
    e matches EffectV::Request(m) && m.topic == topic && m.payload.get("messages"@) == Some(
        JsonV::Array(messages),
    )
}

proof fn lemma_said(w: AgentV, a: &AgentActor, text: Seq<char>, kind: Seq<char>, depth: usize)
    ensures
        ({
            let v = w.say(a, text, kind, depth);
            &&& v == (AgentV { out: v.out, ..w })
            &&& v.out == w.out.push(v.out.last())
            &&& v.out.len() == w.out.len() + 1
            &&& shows(v.out.last(), a.stream_output_topic@, text, kind, depth as int)
        }),
{
    reveal_strlit("type");
    reveal_strlit("depth");
    assert("type"@.len() == 4 && "depth"@.len() == 5);
    let v = w.say(a, text, kind, depth);
    assert(v.out.drop_last() =~= w.out);
    assert(v.out =~= w.out.push(v.out.last()));
    let m = a.note(text, kind);
    let o = m.meta->Object_0;
    assert(keys_once(o));
    lemma_get_entry(o, 0);
    lemma_get_none(o, "depth"@);
    lemma_get_set(m.meta, "depth"@, JsonV::Int(depth as int));
    lemma_get_set_other(m.meta, "depth"@, JsonV::Int(depth as int), "type"@);
}

/// Asking the model marks a request as under way, hands over the system message and the whole
/// conversation, and the tools where there are any.
pub proof fn lemma_asking(w: AgentV, a: &AgentActor)
    ensures
        ({
            let v = w.infer(a);
            let system = match w.conv.active_system {
                Some(s) => s,
                None => a.system_message@,
            };
            &&& v.conv == (StateV { in_flight: true, ..w.conv })
            &&& v.stack == w.stack
            &&& v.out.len() == w.out.len() + 2
            &&& v.out.take(w.out.len() as int) == w.out
            &&& shows(
                v.out[w.out.len() as int],
                a.stream_output_topic@,
                "request_sent"@,
                "LlmRequestSent"@,
                0,
            )
            &&& asks_with(v.out.last(), a.llm_in_topic@, w.conv.sent_with(system))
            &&& v.out.last() matches EffectV::Request(m) && {
                &&& a.tool_defs@.len() > 0 ==> m.payload.get("tools"@) == Some(
                    JsonV::Array(crate::json::jsons(a.tool_defs@)),
                )
                &&& a.tool_defs@.len() == 0 ==> m.payload.get("tools"@) == Some(JsonV::Null)
            }
        }),
{
    let c = w.with_conv(StateV { in_flight: true, ..w.conv });
    lemma_said(c, a, "request_sent"@, "LlmRequestSent"@, 0);
    let v = w.infer(a);
    assert(v.out.take(w.out.len() as int) =~= w.out);
    let o = v.out.last()->Request_0.payload->Object_0;
    reveal_strlit("messages");
    reveal_strlit("prompt");
    reveal_strlit("config");
    reveal_strlit("tools");
    reveal_strlit("grammar");
    assert("messages"@.len() == 8 && "prompt"@.len() == 6 && "config"@.len() == 6);
    assert("tools"@.len() == 5 && "grammar"@.len() == 7 && "prompt"@[0] == 'p' && "config"@[0]
        == 'c');
    assert(keys_once(o));
    lemma_get_entry(o, 0);
    lemma_get_entry(o, 3);
}

/// Whether nothing is under way.
pub open spec fn rests(c: StateV) -> bool {
    !c.in_flight && forall|id: Seq<char>| !(#[trigger] c.pending_tool_calls.contains(id))
}

/// An agent is idle while it waits neither for the model nor for a tool.
pub proof fn lemma_idle(c: StateV)
    ensures
        c.idle() <==> rests(c),
        c.all_resolved() <==> forall|id: Seq<char>| !(#[trigger] c.pending_tool_calls.contains(id)),
{
    if forall|id: Seq<char>| !(#[trigger] c.pending_tool_calls.contains(id)) {
        assert(c.pending_tool_calls =~= Set::empty());
    }
}

/// What the user says to an agent that rests enters the conversation as it is, with a fresh
/// budget of iterations, is shown, and the model is asked. After an interruption it goes on where
/// the user's last message was.
pub proof fn lemma_input_is_heard(w: AgentV, a: &AgentActor, text: Seq<char>)
    requires
        rests(w.conv),
    ensures
        ({
            let v = w.user_input(a, text);
            let c = if w.conv.was_interrupted {
                w.conv.merge_user(text)
            } else {
                w.conv.add_user(text)
            };
            &&& v.conv == (StateV {
                iteration_count: 0,
                was_interrupted: false,
                in_flight: true,
                ..c
            })
            &&& v.stack == w.stack
            &&& v.out.len() == w.out.len() + 3
            &&& v.out.take(w.out.len() as int) == w.out
            &&& shows(
                v.out[w.out.len() as int],
                a.stream_output_topic@,
                text,
                "UserMessageDisplayed"@,
                0,
            )
            &&& exists|system: Seq<char>|
                asks_with(v.out.last(), a.llm_in_topic@, #[trigger] v.conv.sent_with(system))
        }),
{
    lemma_idle(w.conv);
    let fresh = StateV { iteration_count: 0, ..w.conv };
    let told = if w.conv.was_interrupted {
        StateV { was_interrupted: false, ..fresh.merge_user(text) }
    } else {
        fresh.add_user(text)
    };
    let t = w.with_conv(told);
    lemma_said(t, a, text, "UserMessageDisplayed"@, 0);
    let u = t.say(a, text, "UserMessageDisplayed"@, 0);
    lemma_asking(u, a);
    let v = w.user_input(a, text);
    assert(v.out.take(w.out.len() as int) =~= w.out);
    assert(v.out[w.out.len() as int] == u.out.last());
    let system = u.system(a);
    assert(u.conv.sent_with(system) =~= v.conv.sent_with(system));
}

/// What the user says to a busy agent waits behind what they said before, and is shown as
/// waiting; nothing else happens.
pub proof fn lemma_input_waits(w: AgentV, a: &AgentActor, text: Seq<char>)
    requires
        !rests(w.conv),
    ensures
        ({
            let v = w.user_input(a, text);
            &&& v.conv == (StateV {
                pending_messages: w.conv.pending_messages.push(text),
                ..w.conv
            })
            &&& v.stack == w.stack
            &&& v.out == w.out.push(v.out.last())
            &&& shows(v.out.last(), a.stream_output_topic@, text, "UserMessageQueued"@, 0)
        }),
{
    lemma_idle(w.conv);
    let c = w.conv;
    lemma_said(
        w.with_conv(StateV { pending_messages: c.pending_messages.push(text), ..c }),
        a,
        text,
        "UserMessageQueued"@,
        0,
    );
}

/// What the model streams is gathered, its reasoning apart from its text, and every chunk goes on
/// to the user as it came.
pub proof fn lemma_stream_is_heard(w: AgentV, a: &AgentActor, m: MessageV)
    ensures
        ({
            let v = w.stream_chunk(a, m);
            let kind = m.meta.get("type"@);
            &&& v.stack == w.stack
            &&& v.out == w.out.push(v.out.last())
            &&& v.out.last() matches EffectV::Publish(n) && n.topic == a.stream_output_topic@
                && n.payload == m.payload && n.source == m.source && n.meta.get("type"@) == kind
                && (w.conv.depth == 0 ==> n.meta == m.meta)
            &&& v.conv == (StateV {
                reasoning: v.conv.reasoning,
                partial: v.conv.partial,
                ..w.conv
            })
            &&& match m.payload {
                JsonV::Str(t) => {
                    &&& kind == Some(JsonV::Str("LlmThinking"@)) ==> v.conv.reasoning
                        == w.conv.reasoning + t && v.conv.partial == w.conv.partial
                    &&& kind == Some(JsonV::Str("LlmStream"@)) ==> v.conv.partial == w.conv.partial
                        + t && v.conv.reasoning == w.conv.reasoning
                    &&& kind != Some(JsonV::Str("LlmThinking"@)) && kind != Some(
                        JsonV::Str("LlmStream"@),
                    ) ==> v.conv == w.conv
                },
                _ => v.conv == w.conv,
            }
        }),
{
    reveal_strlit("LlmThinking");
    reveal_strlit("LlmStream");
    reveal_strlit("type");
    reveal_strlit("depth");
    assert("type"@.len() == 4 && "depth"@.len() == 5);
    assert("LlmThinking"@.len() == 11 && "LlmStream"@.len() == 9);
    let v = w.stream_chunk(a, m);
    assert(v.out.drop_last() =~= w.out);
    assert(v.out =~= w.out.push(v.out.last()));
    let d = JsonV::Int(w.conv.depth as int);
    if m.meta is Object {
        lemma_get_set_other(m.meta, "depth"@, d, "type"@);
    } else {
        let o = meta_with(m.meta, "depth"@, d)->Object_0;
        lemma_get_none(o, "type"@);
    }
}

/// The user's interruption ends the request, drops what was waiting, and keeps what the model
/// had said so far as its answer.
pub proof fn lemma_interruption(w: AgentV, a: &AgentActor, output: Seq<char>)
    ensures
        ({
            let v = w.interrupted(a, output);
            &&& !v.conv.in_flight
            &&& v.conv.was_interrupted
            &&& v.conv.pending_messages.len() == 0
            &&& v.conv.partial.len() == 0
            &&& v.conv.reasoning.len() == 0
            &&& v.conv == (StateV {
                in_flight: false,
                was_interrupted: true,
                pending_messages: Seq::empty(),
                partial: Seq::empty(),
                reasoning: Seq::empty(),
                messages: v.conv.messages,
                ..w.conv
            })
            &&& w.conv.partial.len() == 0 ==> v.conv.messages == w.conv.messages
            &&& w.conv.partial.len() > 0 ==> v.conv.messages == w.conv.messages.push(
                v.conv.messages.last(),
            ) && v.conv.messages.last().get("role"@) == Some(JsonV::Str("assistant"@))
                && v.conv.messages.last().get("content"@) == Some(JsonV::Str(w.conv.partial))
            &&& v.stack == w.stack
            &&& v.out == w.out.push(v.out.last())
            &&& shows(v.out.last(), a.stream_output_topic@, output, "Warning"@, 0)
        }),
{
    let c = StateV {
        was_interrupted: true,
        in_flight: false,
        reasoning: Seq::empty(),
        pending_messages: Seq::empty(),
        partial: Seq::empty(),
        ..w.conv
    };
    let d = if w.conv.partial.len() > 0 {
        c.add_assistant(w.conv.partial)
    } else {
        c
    };
    lemma_assistant_is_recorded(c, w.conv.partial);
    lemma_said(w.with_conv(d), a, output, "Warning"@, 0);
    let v = w.interrupted(a, output);
    assert(v.conv.messages =~= if w.conv.partial.len() > 0 {
        w.conv.messages.push(v.conv.messages.last())
    } else {
        w.conv.messages
    });
}

/// Which outputs of the model are failures of its stream, interruptions by the user, or answers.
pub proof fn lemma_kinds_of_output(w: AgentV, a: &AgentActor, m: MessageV, now_ms: u64)
    ensures
        ({
            let r = w.llm_output(a, m, now_ms);
            let kind = m.meta.get("type"@);
            if kind == Some(JsonV::Str("LlmIdleTimeout"@)) {
                r == (w.triage(a, "went idle (>90s no tokens)"@, m.payload_text(), now_ms), false)
            } else if kind == Some(JsonV::Str("LlmStuckLoop"@)) {
                r == (
                    w.triage(
                        a,
                        "stuck in a think-loop (repeated output)"@,
                        m.payload_text(),
                        now_ms,
                    ),
                    false,
                )
            } else if starts_with(m.payload_text(), "Interrupted:"@) {
                r == (w.interrupted(a, m.payload_text()), false)
            } else {
                r == w.answered(a, m.payload_text(), now_ms)
            }
        }),
{
}

/// A model that got stuck: what it said is kept, the agent counts as interrupted, the incident is
/// recorded, the user is told, and guidance is asked for where there is a way to.
pub proof fn lemma_stuck_model(
    w: AgentV,
    a: &AgentActor,
    reason: Seq<char>,
    partial: Seq<char>,
    now_ms: u64,
)
    ensures
        ({
            let v = w.triage(a, reason, partial, now_ms);
            let n = w.out.len() as int;
            &&& !v.conv.in_flight && v.conv.was_interrupted
            &&& v.conv.pending_messages == w.conv.pending_messages
            &&& v.conv.surprises == w.conv.surprises.push(v.conv.surprises.last())
            &&& v.conv.surprises.last().kind == if contains(reason, "idle"@) {
                "idle_timeout"@
            } else {
                "within_stream_loop"@
            }
            &&& v.conv.surprises.last().trigger == "triage: "@ + reason
            &&& v.conv.surprises.last().ms == now_ms
            &&& partial.len() == 0 ==> v.conv.messages == w.conv.messages
            &&& partial.len() > 0 ==> v.conv.messages == w.conv.messages.push(
                v.conv.messages.last(),
            ) && v.conv.messages.last().get("content"@) == Some(JsonV::Str(partial))
                && v.conv.messages.last().get("role"@) == Some(JsonV::Str("assistant"@))
            &&& v.stack == w.stack
            &&& v.out.len() == n + if a.llm_config is Some {
                2int
            } else {
                1
            }
            &&& v.out.take(n) == w.out
            &&& shows(
                v.out[n],
                a.stream_output_topic@,
                "Model "@ + reason + " — running triage..."@,
                "Warning"@,
                0,
            )
            &&& a.llm_config is Some ==> v.out.last() == (EffectV::Triage {
                reason,
                prompt: triage_prompt(reason, partial),
            })
        }),
{
    let c = StateV { in_flight: false, was_interrupted: true, ..w.conv };
    lemma_assistant_is_recorded(c, partial);
    let kept = if partial.len() > 0 {
        c.add_assistant(partial)
    } else {
        c
    };
    let v = w.triage(a, reason, partial, now_ms);
    let s = v.conv.surprises.last();
    assert(v.conv.surprises =~= kept.surprises.push(s));
    assert(v.conv == kept.record_surprise(s));
    let u = w.with_conv(kept.record_surprise(s));
    lemma_said(u, a, "Model "@ + reason + " — running triage..."@, "Warning"@, 0);
    assert(v.out.take(w.out.len() as int) =~= w.out);
}

/// The guidance is shown, and reaches the agent as if the user had said it.
pub proof fn lemma_guidance(w: AgentV, a: &AgentActor, reason: Seq<char>, guidance: Seq<char>)
    ensures
        ({
            let v = w.guided(a, reason, guidance);
            let n = w.out.len() as int;
            &&& v.conv == w.conv && v.stack == w.stack
            &&& v.out.len() == n + 2 && v.out.take(n) == w.out
            &&& shows(
                v.out[n],
                a.stream_output_topic@,
                "Triage guidance: "@ + trim(guidance),
                "Info"@,
                0,
            )
            &&& v.out.last() matches EffectV::Publish(m) && m.topic == a.input_topic@ && m.payload
                == JsonV::Str(
                "The model was stuck ("@ + reason
                    + ") and has been interrupted. Triage guidance: "@ + trim(guidance)
                    + "\n\nPlease continue based on this guidance. Do NOT repeat your previous reasoning."@,
            )
        }),
{
    lemma_said(w, a, "Triage guidance: "@ + trim(guidance), "Info"@, 0);
    let v = w.guided(a, reason, guidance);
    assert(v.out.take(w.out.len() as int) =~= w.out);
}

/// An answer of the model is recorded as the assistant's text, counts as one iteration and ends
/// the request.
pub proof fn lemma_answer_is_recorded(w: AgentV, output: Seq<char>)
    requires
        w.conv.iteration_count < u32::MAX,
    ensures
        ({
            let v = w.committed(output);
            &&& !v.conv.in_flight
            &&& v.conv.iteration_count == w.conv.iteration_count + 1
            &&& v.conv.messages == w.conv.messages.push(v.conv.messages.last())
            &&& v.conv.messages.len() == w.conv.messages.len() + 1
            &&& v.conv.messages.last().get("role"@) == Some(JsonV::Str("assistant"@))
            &&& v.conv.messages.last().get("content"@) == Some(JsonV::Str(output))
            &&& v.conv.pending_messages == w.conv.pending_messages
            &&& v.conv.pending_tool_calls == w.conv.pending_tool_calls
            &&& v.stack == w.stack && v.out == w.out
        }),
{
    lemma_assistant_is_recorded(StateV { in_flight: false, ..w.conv }, output);
}

/// At the top, an answer with nothing waiting ends the turn: nothing is sent. With messages
/// waiting, all of them enter the conversation, and the model is asked once.
pub proof fn lemma_answer_at_the_top(w: AgentV, a: &AgentActor, output: Seq<char>, now_ms: u64)
    requires
        w.stack.len() == 0,
    ensures
        ({
            let (v, check) = w.answered(a, output, now_ms);
            let c = w.committed(output).conv;
            let ms = w.conv.pending_messages;
            &&& v.conv.pending_messages.len() == 0
            &&& ms.len() == 0 ==> check && v.out == w.out && v.conv == (StateV {
                pending_messages: Seq::empty(),
                ..c
            })
            &&& ms.len() > 0 ==> !check && v.conv.in_flight && v.out.last() is Request
                && v.conv.messages.len() == c.messages.len() + ms.len()
        }),
{
    let u = w.committed(output);
    lemma_assistant_is_recorded(StateV { in_flight: false, ..w.conv }, output);
    let ms = w.conv.pending_messages;
    assert(u.conv.pending_messages == ms);
    if ms.len() > 0 {
        lemma_delivered(u.drained(), a, ms, ms.len() as int);
        lemma_asking(u.drained().deliver(a, ms, ms.len() as int), a);
    }
}

/// The messages that waited enter the conversation in their order, each as the user's own, and
/// each is shown.
pub proof fn lemma_delivered(w: AgentV, a: &AgentActor, ms: Seq<Seq<char>>, n: int)
    requires
        0 <= n <= ms.len(),
    ensures
        ({
            let v = w.deliver(a, ms, n);
            let had = w.conv.messages.len() as int;
            let shown = w.out.len() as int;
            &&& v.stack == w.stack
            &&& v.conv == (StateV {
                messages: v.conv.messages,
                reasoning: v.conv.reasoning,
                ..w.conv
            })
            &&& v.conv.messages.len() == had + n
            &&& v.conv.messages.take(had) == w.conv.messages
            &&& forall|i: int|
                0 <= i < n ==> (#[trigger] v.conv.messages[had + i]).get("role"@) == Some(
                    JsonV::Str("user"@),
                ) && v.conv.messages[had + i].get("content"@) == Some(JsonV::Str(ms[i]))
            &&& v.out.len() == shown + n
            &&& v.out.take(shown) == w.out
            &&& forall|i: int|
                0 <= i < n ==> shows(
                    #[trigger] v.out[shown + i],
                    a.stream_output_topic@,
                    ms[i],
                    "UserMessageDisplayed"@,
                    w.conv.depth as int,
                )
        }),
    decreases n,
{
    let had = w.conv.messages.len() as int;
    let shown = w.out.len() as int;
    if n == 0 {
        assert(w.conv.messages.take(had) =~= w.conv.messages);
        assert(w.out.take(shown) =~= w.out);
    } else {
        lemma_delivered(w, a, ms, n - 1);
        let u = w.deliver(a, ms, n - 1);
        lemma_user_is_recorded(u.conv, ms[n - 1]);
        let t = u.with_conv(u.conv.add_user(ms[n - 1]));
        lemma_said(t, a, ms[n - 1], "UserMessageDisplayed"@, u.conv.depth);
        let v = w.deliver(a, ms, n);
        assert(v.conv.messages.take(had) =~= w.conv.messages);
        assert(v.out.take(shown) =~= w.out);
        assert forall|i: int| 0 <= i < n implies (#[trigger] v.conv.messages[had + i]).get(
            "role"@,
        ) == Some(JsonV::Str("user"@)) && v.conv.messages[had + i].get("content"@) == Some(
            JsonV::Str(ms[i]),
        ) by {
            if i < n - 1 {
                assert(v.conv.messages[had + i] == u.conv.messages[had + i]);
            } else {
                assert(v.conv.messages[had + i] == v.conv.messages.last());
            }
        }
        assert forall|i: int| 0 <= i < n implies shows(
            #[trigger] v.out[shown + i],
            a.stream_output_topic@,
            ms[i],
            "UserMessageDisplayed"@,
            w.conv.depth as int,
        ) by {
            if i < n - 1 {
                assert(v.out[shown + i] == u.out[shown + i]);
            } else {
                assert(v.out[shown + i] == v.out.last());
            }
        }
    }
}

/// An agent goes on when the last tool call is answered, and not before; below the limit of
/// iterations it asks the model, after what the user said meanwhile has entered the conversation,
/// which also gives it a fresh budget.
pub proof fn lemma_going_on(w: AgentV, a: &AgentActor, now_ms: u64)
    ensures
        ({
            let v = w.advance(a, now_ms);
            let ms = w.conv.pending_messages;
            let waits = exists|id: Seq<char>| #[trigger] w.conv.pending_tool_calls.contains(id);
            &&& waits ==> v == w
            &&& !waits && ms.len() == 0 && w.conv.iteration_count < a.max_iterations ==> v.conv == (
            StateV { in_flight: true, ..w.conv }) && v.out.len() == w.out.len() + 2
                && v.out.last() is Request
            &&& !waits && ms.len() > 0 && a.max_iterations > 0 ==> v.conv.in_flight
                && v.conv.iteration_count == 0 && v.conv.pending_messages.len() == 0
                && v.conv.messages.len() == w.conv.messages.len() + ms.len() && v.out.last()
                is Request
        }),
{
    lemma_idle(w.conv);
    let ms = w.conv.pending_messages;
    let d = w.drained();
    if w.conv.all_resolved() {
        if ms.len() == 0 {
            assert(d.conv.pending_messages =~= ms);
            lemma_asking(d, a);
        } else {
            let e = d.with_conv(StateV { iteration_count: 0, ..d.conv });
            lemma_delivered(e, a, ms, ms.len() as int);
            lemma_asking(e.deliver(a, ms, ms.len() as int), a);
        }
    }
}

/// A result of a tool is recorded under the id of its call and shown; while other calls are open
/// nothing else happens.
pub proof fn lemma_tool_answers(w: AgentV, a: &AgentActor, r: ToolResultV, now_ms: u64)
    requires
        exists|id: Seq<char>|
            id != r.id && #[trigger] w.conv.pending_tool_calls.contains(id),
    ensures
        ({
            let v = w.tool_result(a, r, now_ms);
            let text = if r.success {
                r.result
            } else {
                match r.error {
                    Some(e) => e,
                    None => "unknown"@,
                }
            };
            &&& v.conv.pending_tool_calls == w.conv.pending_tool_calls.remove(r.id)
            &&& v.conv == (StateV {
                messages: v.conv.messages,
                pending_tool_calls: v.conv.pending_tool_calls,
                ..w.conv
            })
            &&& v.conv.messages == w.conv.messages.push(v.conv.messages.last())
            &&& v.conv.messages.len() == w.conv.messages.len() + 1
            &&& v.conv.messages.last().get("role"@) == Some(JsonV::Str("tool"@))
            &&& v.conv.messages.last().get("tool_call_id"@) == Some(JsonV::Str(r.id))
            &&& v.conv.messages.last().get("content"@) == Some(
                JsonV::Str(
                    if r.success {
                        r.result
                    } else {
                        "Error: "@ + r.result
                    },
                ),
            )
            &&& v.stack == w.stack
            &&& v.out == w.out.push(v.out.last())
            &&& shows(
                v.out.last(),
                a.stream_output_topic@,
                "  [tool_"@ + (if r.success {
                    "result"@
                } else {
                    "error"@
                }) + "] "@ + r.name + "("@ + r.id + ") => "@ + text,
                "LlmToolResult"@,
                w.conv.depth as int,
            )
        }),
{
    let id = choose|id: Seq<char>|
        id != r.id && #[trigger] w.conv.pending_tool_calls.contains(id);
    let added = w.conv.add_tool_result(r.id, r.name, r.result, r.success);
    crate::state_laws::lemma_result_is_recorded(w.conv, r.id, r.name, r.result, r.success);
    let c = added.resolve(r.id);
    assert(w.conv.pending_tool_calls.remove(r.id).contains(id));
    assert(added.pending_tool_calls.remove(r.id) != Set::<Seq<char>>::empty());
    assert(c.pending_tool_calls.contains(id));
    lemma_idle(c);
    let text = if r.success {
        r.result
    } else {
        match r.error {
            Some(e) => e,
            None => "unknown"@,
        }
    };
    lemma_said(
        w.with_conv(c),
        a,
        crate::agent_tools::result_line(r.success, r.name, r.id, text),
        "LlmToolResult"@,
        c.depth,
    );
}

/// A call whose arguments cannot be read is answered with an error of its own; one for a tool
/// that the agent does not handle itself goes to that tool's topic with its id, its name and what
/// its arguments spell; and the call is announced.
pub proof fn lemma_calls_are_dispatched(
    w: AgentV,
    a: &AgentActor,
    i: int,
    tc: JsonV,
    world: &ToolWorld,
)
    ensures
        ({
            let v = w.dispatch(a, i, tc, world);
            let n = w.out.len() as int;
            let (id, name, text) = (call_id(i, tc), call_name(tc), args_text(tc));
            &&& json_parse(text) is None ==> v.out == w.out && v.stack == w.stack
                && !v.conv.pending_tool_calls.contains(id) && (forall|other: Seq<char>|
                other != id && w.conv.pending_tool_calls.contains(other)
                    ==> #[trigger] v.conv.pending_tool_calls.contains(other))
            &&& json_parse(text) matches Some(args) ==> !internal_tool(name) && name
                != "call_subagent"@ ==> {
                &&& v.conv == w.conv && v.stack == w.stack
                &&& v.out.len() == n + 2 && v.out.take(n) == w.out
                &&& v.out[n] matches EffectV::Publish(m) && m.topic == a.stream_output_topic@
                    && m.payload.get("id"@) == Some(JsonV::Str(id)) && m.payload.get("name"@)
                    == Some(JsonV::Str(name))
                &&& v.out[n + 1] matches EffectV::Publish(m) && m.topic == "tool:"@ + name
                    + ":execute"@ && m.payload.get("tool_call_id"@) == Some(JsonV::Str(id))
                    && m.payload.get("tool_name"@) == Some(JsonV::Str(name)) && m.payload.get(
                    "arguments"@,
                ) == Some(args)
            }
        }),
{
    let v = w.dispatch(a, i, tc, world);
    let n = w.out.len() as int;
    let (id, name, text) = (call_id(i, tc), call_name(tc), args_text(tc));
    match json_parse(text) {
        None => {
            let e = "Error parsing arguments: "@ + crate::json::json_error(text);
            let c = w.conv.add_tool_result(id, name, e, false);
            assert(v.conv.pending_tool_calls == w.conv.pending_tool_calls.remove(id));
        },
        Some(args) => {
            if !internal_tool(name) && name != "call_subagent"@ {
                reveal_strlit("id");
                reveal_strlit("name");
                reveal_strlit("text");
                reveal_strlit("tool_call_id");
                reveal_strlit("tool_name");
                reveal_strlit("arguments");
                assert("id"@.len() == 2 && "name"@.len() == 4 && "text"@.len() == 4);
                assert("name"@[0] == 'n' && "text"@[0] == 't');
                assert("tool_call_id"@.len() == 12 && "tool_name"@.len() == 9);
                assert("arguments"@.len() == 9 && "arguments"@[0] == 'a' && "tool_name"@[0] == 't');
                assert(v.out.take(n) =~= w.out);
                let p = v.out[n]->Publish_0.payload->Object_0;
                assert(keys_once(p));
                lemma_get_entry(p, 0);
                lemma_get_entry(p, 1);
                let q = v.out[n + 1]->Publish_0.payload->Object_0;
                assert(keys_once(q));
                lemma_get_entry(q, 0);
                lemma_get_entry(q, 1);
                lemma_get_entry(q, 2);
            }
        },
    }
}

/// A turn that repeats the two before it is collapsed, the user is warned, and the agent is told
/// to try something else; one that does not is only recorded.
pub proof fn lemma_loops_are_broken(w: AgentV, a: &AgentActor, roll: u32, now_ms: u64)
    ensures
        ({
            let v = w.break_loop(a, roll, now_ms);
            let c = w.conv.record_turn();
            let streak = w.conv.turn_streak();
            let n = w.out.len() as int;
            &&& v.stack == w.stack
            &&& streak < 3 ==> v.conv == c && v.out == w.out
            &&& streak >= 3 ==> v.conv == (StateV {
                surprises: v.conv.surprises,
                ..c.collapse()
            }) && v.conv.surprises == w.conv.surprises.push(v.conv.surprises.last())
                && v.conv.surprises.last().kind == "cross_turn_loop"@
            &&& streak >= 3 ==> v.out.len() == n + 2 && v.out.take(n) == w.out && (v.out[n] matches EffectV::Publish(
                m,
            ) && m.topic == a.stream_output_topic@ && m.meta.get("type"@) == Some(
                JsonV::Str("Warning"@),
            )) && (v.out[n + 1] matches EffectV::Publish(m) && m.topic == a.input_topic@
                && m.payload == JsonV::Str(tie_breaker(streak, roll as int)))
        }),
{
    let c = w.conv.record_turn();
    let n = w.conv.turn_streak();
    let v = w.break_loop(a, roll, now_ms);
    if n >= 3 {
        let removed = c.collapse_count();
        let text = "Cross-turn loop detected: "@ + dec(n) + " consecutive near-identical turns ("@
            + dec(removed) + " messages compacted from history). Injecting tie-breaker."@;
        lemma_said(w.with_conv(c.collapse()), a, text, "Warning"@, 0);
        assert(v.out.take(w.out.len() as int) =~= w.out);
        assert(c.collapse().surprises == w.conv.surprises);
        assert(v.conv.surprises =~= w.conv.surprises.push(v.conv.surprises.last()));
    }
}

/// A count under a key.
pub open spec fn count_in(v: JsonV, k: Seq<char>) -> Option<int> {
    match v.get(k) {
        Some(JsonV::Int(n)) => if 0 <= n <= u64::MAX {
            Some(n)
        } else {
            None
        },
        _ => None,
    }
}

/// The usage that statistics report is remembered, its window where they name one, and the user
/// is warned exactly where less than a fifth of the window is left.
pub proof fn lemma_usage_is_watched(w: AgentV, a: &AgentActor, m: MessageV, left: Seq<char>)
    ensures
        ({
            let v = w.stats(a, m, left);
            let used = match m.payload.get("usage"@) {
                Some(u) => count_in(u, "input_tokens"@),
                None => None,
            };
            &&& v.stack == w.stack
            &&& v.conv == (StateV {
                last_usage: v.conv.last_usage,
                context_window: v.conv.context_window,
                reminders: v.conv.reminders,
                pending_messages: v.conv.pending_messages,
                ..w.conv
            })
            &&& v.conv.last_usage matches Some(u) && (u.input_tokens matches Some(n) ==> used == Some(
                n as int,
            )) && (u.input_tokens is None ==> used is None)
            &&& window_of(m.payload) is None ==> v.conv.context_window == w.conv.context_window
            &&& window_of(m.payload) is Some ==> v.conv.context_window == window_of(m.payload)
            &&& match (used, v.conv.context_window) {
                (Some(n), Some(size)) => if n <= size && 5 * (size - n) < size {
                    v.out.len() == w.out.len() + 1 && v.out.drop_last() == w.out
                } else {
                    v.out == w.out
                },
                _ => v.out == w.out,
            }
        }),
{
    let v = w.stats(a, m, left);
    if v.out.len() > w.out.len() {
        assert(v.out.drop_last() =~= w.out);
    }
}

/// A command about the state is for the agent that it names, and says what it is by its type.
pub proof fn lemma_commands(me: Seq<char>, p: JsonV)
    ensures
        ({
            let c = state_command(me, p);
            let mine = match p.get("agent_id"@) {
                Some(JsonV::Str(id)) => id == me,
                _ => me.len() == 0,
            };
            &&& c is Dump <==> mine && p.get("type"@) == Some(JsonV::Str("dump_state"@))
            &&& c is RetrievePending <==> mine && p.get("type"@) == Some(
                JsonV::Str("retrieve_pending"@),
            )
            &&& c is Load <==> mine && p.get("type"@) == Some(JsonV::Str("load_state"@))
            &&& c matches StateCommandV::Load(v) ==> match p.get("state"@) {
                Some(s) => v == s,
                None => v == JsonV::Null,
            }
        }),
{
    reveal_strlit("dump_state");
    reveal_strlit("load_state");
    reveal_strlit("retrieve_pending");
    assert("dump_state"@[0] == 'd' && "load_state"@[0] == 'l' && "retrieve_pending"@[0] == 'r');
    if me.len() == 0 {
        assert(me =~= Seq::empty());
    }
}

/// Messages that wait are handed back to the user, one in a line, and wait no longer.
pub proof fn lemma_waiting_is_handed_back(w: AgentV, a: &AgentActor)
    ensures
        ({
            let v = w.retrieve_pending(a);
            &&& v.conv == (StateV { pending_messages: Seq::empty(), ..w.conv })
            &&& v.stack == w.stack
            &&& v.out == w.out.push(v.out.last())
            &&& v.out.last() matches EffectV::Publish(m) && m.topic == a.stream_output_topic@
                && m.payload.get("text"@) == Some(
                JsonV::Str(join(w.conv.pending_messages, "\n"@)),
            ) && m.meta.get("type"@) == Some(JsonV::Str("RetrievedPending"@))
        }),
{
    let v = w.retrieve_pending(a);
    assert(v.out.drop_last() =~= w.out);
    assert(v.out =~= w.out.push(v.out.last()));
    let m = v.out.last()->Publish_0;
    lemma_get_entry(m.payload->Object_0, 0);
    lemma_get_entry(m.meta->Object_0, 0);
}

/// A loaded conversation takes the place of the current one, at the same depth, and is replayed
/// to the user.
pub proof fn lemma_loading(w: AgentV, a: &AgentActor, c: StateV)
    ensures
        ({
            let v = w.loaded(a, c);
            let n = w.out.len() as int;
            &&& v.conv == (StateV { depth: w.conv.depth, ..c })
            &&& v.stack == w.stack
            &&& v.out.len() == n + 2 && v.out.take(n) == w.out
            &&& v.out[n] matches EffectV::Publish(m) && m.topic == a.stream_output_topic@
                && m.payload.get("messages"@) == Some(JsonV::Array(c.messages)) && m.meta.get(
                "type"@,
            ) == Some(JsonV::Str("StateReplay"@))
            &&& shows(
                v.out[n + 1],
                a.stream_output_topic@,
                "State loaded successfully"@,
                "Info"@,
                0,
            )
        }),
{
    let v = w.loaded(a, c);
    let n = w.out.len() as int;
    assert(v.out.take(n) =~= w.out);
    let m = v.out[n]->Publish_0;
    lemma_get_entry(m.payload->Object_0, 0);
    lemma_get_entry(m.meta->Object_0, 0);
    let u = AgentV { out: v.out.drop_last(), ..v };
    lemma_said(u, a, "State loaded successfully"@, "Info"@, 0);
    assert(u.say(a, "State loaded successfully"@, "Info"@, 0).out =~= v.out);
}

// ---- subagents and restarts

/// The call that a subagent answers is the last one in the conversation that called a subagent.
pub proof fn lemma_answered_call(ms: Seq<JsonV>, m: JsonV)
    ensures
        subagent_call(Seq::empty(), 0) is None,
        ({
            let had = subagent_call(ms, ms.len() as int);
            let here = last_subagent_call(calls_of(m), calls_of(m).len() as int);
            subagent_call(ms.push(m), ms.len() as int + 1) == if m.get("role"@) == Some(
                JsonV::Str("assistant"@),
            ) && here is Some {
                here
            } else {
                had
            }
        }),
{
    lemma_call_in_prefix(ms, m, ms.len() as int);
}

proof fn lemma_call_in_prefix(ms: Seq<JsonV>, m: JsonV, n: int)
    requires
        0 <= n <= ms.len(),
    ensures
        subagent_call(ms.push(m), n) == subagent_call(ms, n),
    decreases n,
{
    if n > 0 {
        lemma_call_in_prefix(ms, m, n - 1);
        assert(ms.push(m)[n - 1] == ms[n - 1]);
    }
}

/// Within a batch it is the last call that names a subagent, by its own id.
pub proof fn lemma_answered_call_in_batch(calls: Seq<JsonV>, n: int)
    requires
        0 <= n <= calls.len(),
    ensures
        last_subagent_call(calls, n) is None ==> forall|j: int|
            0 <= j < n ==> call_name(#[trigger] calls[j]) != "call_subagent"@,
        last_subagent_call(calls, n) matches Some(id) ==> exists|j: int|
            0 <= j < n && call_name(#[trigger] calls[j]) == "call_subagent"@ && (match calls[j].get(
                "id"@,
            ) {
                Some(JsonV::Str(s)) => id == s,
                _ => id.len() == 0,
            }) && forall|k: int|
                j < k < n ==> call_name(#[trigger] calls[k]) != "call_subagent"@,
    decreases n,
{
    if n > 0 {
        lemma_answered_call_in_batch(calls, n - 1);
        if call_name(calls[n - 1]) == "call_subagent"@ {
            let j = n - 1;
            assert(call_name(calls[j]) == "call_subagent"@);
        } else if last_subagent_call(calls, n - 1) is Some {
            let id = last_subagent_call(calls, n - 1).unwrap();
            let j = choose|j: int|
                0 <= j < n - 1 && call_name(#[trigger] calls[j]) == "call_subagent"@ && (
                match calls[j].get("id"@) {
                    Some(JsonV::Str(s)) => id == s,
                    _ => id.len() == 0,
                }) && forall|k: int|
                    j < k < n - 1 ==> call_name(#[trigger] calls[k]) != "call_subagent"@;
            assert(call_name(calls[j]) == "call_subagent"@);
        }
    }
}

/// A subagent that returns gives its result to its parent as the answer to the call, under the
/// call's id; the parent has its own conversation back, and its own system message.
pub proof fn lemma_result_goes_to_parent(w: AgentV, a: &AgentActor, result: Seq<char>)
    requires
        w.stack.len() > 0,
        w.stack.last().state.depth < usize::MAX,
    ensures
        ({
            let v = w.restored(a, result);
            let p = w.stack.last().state;
            &&& v.stack == w.stack.drop_last()
            &&& v.conv.active_system is None
            &&& v.conv.depth == p.depth && v.conv.todos == p.todos
            &&& match subagent_call(p.messages, p.messages.len() as int) {
                None => v.conv == (StateV { active_system: None, ..p }),
                Some(id) => v.conv == (StateV {
                    active_system: None,
                    ..p.add_tool_result(id, "call_subagent"@, result, true).resolve(id)
                }) && !v.conv.pending_tool_calls.contains(id),
            }
            &&& shows(
                v.out.last(),
                a.stream_output_topic@,
                "[subagent] completed: "@ + take_chars(result, 200),
                "SubagentEnd"@,
                p.depth + 1,
            )
        }),
{
    let p = w.stack.last().state;
    let id = subagent_call(p.messages, p.messages.len() as int);
    let v = w.restored(a, result);
    let answered = match id {
        Some(id) => p.add_tool_result(id, "call_subagent"@, result, true).resolve(id),
        None => p,
    };
    let u = AgentV {
        conv: StateV { active_system: None, ..answered },
        stack: w.stack.drop_last(),
        ..w
    };
    let shown = match id {
        Some(id) => u.say(
            a,
            "  [tool_result] call_subagent("@ + id + ") => "@ + take_chars(result, 500),
            "LlmToolResult"@,
            u.conv.depth,
        ),
        None => u,
    };
    lemma_said(
        shown,
        a,
        "[subagent] completed: "@ + take_chars(result, 200),
        "SubagentEnd"@,
        (u.conv.depth + 1) as usize,
    );
}

/// Where a subagent runs out of iterations, its last words are its result, or that it ran out.
pub proof fn lemma_last_words(c: StateV, max: u32)
    ensures
        match c.last_turn() {
            Some(m) => match m.get("content"@) {
                Some(JsonV::Str(t)) => partial_result(c, max) == t,
                _ => partial_result(c, max) == "Subagent hit max_iterations ("@ + dec(max as int)
                    + ")"@,
            },
            None => partial_result(c, max) == "Subagent hit max_iterations ("@ + dec(max as int)
                + ")"@,
        },
{
}

/// A subagent works on its task alone: its conversation holds the task and nothing else, it runs
/// under its own system message where it is given one, and its parent waits with all it had.
pub proof fn lemma_subagent_begins(w: AgentV, a: &AgentActor, args: JsonV)
    requires
        w.conv.depth < usize::MAX,
    ensures
        ({
            let (v, o) = w.call_subagent(a, args);
            match args.get("task"@) {
                Some(JsonV::Str(task)) => if trim(task).len() > 0 {
                    &&& o.success && o.reset
                    &&& v.stack.len() == w.stack.len() + 1
                    &&& v.stack.drop_last() == w.stack
                    &&& v.stack.last().state == w.conv
                    &&& v.conv.messages.len() == 1
                    &&& v.conv.messages[0].get("role"@) == Some(JsonV::Str("user"@))
                    &&& v.conv.messages[0].get("content"@) == Some(JsonV::Str(task))
                    &&& v.conv.depth == w.conv.depth + 1
                    &&& v.conv.active_system == match args.get("system_prompt"@) {
                        Some(JsonV::Str(s)) => Some(s),
                        _ => None,
                    }
                    &&& v.conv.iteration_count == 0 && v.conv.in_flight
                    &&& v.conv.pending_messages.len() == 0 && v.conv.todos.len() == 0
                    &&& v.conv.pending_tool_calls == Set::<Seq<char>>::empty()
                    &&& v.out == w.out.push(v.out.last())
                    &&& shows(
                        v.out.last(),
                        a.stream_output_topic@,
                        "[subagent] starting: "@ + task,
                        "SubagentStart"@,
                        w.conv.depth + 1,
                    )
                } else {
                    v == w && !o.success && !o.reset
                },
                _ => v == w && !o.success && !o.reset,
            }
        }),
{
    if let Some(task) = args.str_at("task"@) {
        if trim(task).len() > 0 {
            let (v, o) = w.call_subagent(a, args);
            let depth = (w.conv.depth + 1) as usize;
            let c = StateV {
                depth,
                active_system: args.str_at("system_prompt"@),
                ..w.conv.clear_for_restart()
            };
            lemma_user_is_recorded(c, task);
            let pushed = AgentV { conv: c, stack: v.stack, ..w };
            lemma_said(pushed, a, "[subagent] starting: "@ + task, "SubagentStart"@, depth);
            assert(v.stack.drop_last() =~= w.stack);
            assert(c.messages.len() == 0);
            assert(v.conv.messages.len() == 1);
            assert(v.conv.messages.last() == v.conv.messages[0]);
        }
    }
}

/// A restart that succeeds leaves one message, which carries the file; one that fails leaves
/// everything as it was.
pub proof fn lemma_restarting(w: AgentV, a: &AgentActor, args: JsonV, world: &ToolWorld)
    ensures
        ({
            let (v, o) = w.restart(a, args, world);
            &&& o.success <==> o.reset
            &&& !o.success ==> v == w
            &&& o.success <==> restart_file(args) is Some && world.restart@ is Done
            &&& o.success ==> (world.restart@ matches crate::agent_tools::RestartIoV::Done(text) && {
                &&& v.stack == w.stack
                &&& v.conv.messages.len() == 1
                &&& v.conv.messages[0].get("role"@) == Some(JsonV::Str("user"@))
                &&& v.conv.messages[0].get("content"@) == Some(
                    JsonV::Str(restart_instruction(text)),
                )
                &&& v.conv.iteration_count == 0 && v.conv.surprises.len() == 0
                &&& v.conv.pending_messages.len() == 0 && v.conv.todos.len() == 0
                &&& !v.conv.in_flight && !v.conv.was_interrupted
                &&& v.conv.depth == w.conv.depth
            })
        }),
{
    if restart_file(args) is Some {
        if let crate::agent_tools::RestartIoV::Done(text) = world.restart@ {
            let u = w.flush_surprises(a);
            lemma_flush(w, a, w.conv.surprises.len() as int);
            let c = u.conv.clear_for_restart();
            lemma_user_is_recorded(c, restart_instruction(text));
            let (v, o) = w.restart(a, args, world);
            assert(c.messages.len() == 0);
            assert(v.conv.messages.last() == v.conv.messages[0]);
        }
    }
}

proof fn lemma_flush(w: AgentV, a: &AgentActor, n: int)
    ensures
        w.flush_surprises(a).stack == w.stack,
        w.flush_surprises(a).conv == (StateV { surprises: Seq::empty(), ..w.conv }),
{
    let s = w.conv.surprises;
    let u = w.with_conv(StateV { surprises: Seq::empty(), ..w.conv });
    let v = u.emit(
        EffectV::SaveFile {
            path: "tmp/surprises.md"@,
            text: crate::five_whys::surprises_md(s),
        },
    );
    lemma_analyzed(v, s, s.len() as int);
}

/// Each incident is handed to analysis, in its order, and nothing else changes.
pub proof fn lemma_analyzed(w: AgentV, s: Seq<crate::five_whys::SurpriseV>, n: int)
    requires
        n <= s.len(),
    ensures
        ({
            let v = w.analyze(s, n);
            &&& v.conv == w.conv && v.stack == w.stack
            &&& n >= 0 ==> v.out.len() == w.out.len() + n && v.out.take(w.out.len() as int) == w.out
            &&& forall|i: int|
                0 <= i < n ==> ((#[trigger] v.out[w.out.len() + i]) matches EffectV::Analyze(r)
                    && r.kind == s[i].kind && r.trigger == s[i].trigger && (s[i].trace.len() > 0
                    ==> r.trace == s[i].trace))
        }),
    decreases n,
{
    if n > 0 {
        lemma_analyzed(w, s, n - 1);
        let v = w.analyze(s, n);
        let u = w.analyze(s, n - 1);
        assert(v.out.take(w.out.len() as int) =~= w.out);
        assert forall|i: int| 0 <= i < n implies ((
        #[trigger] v.out[w.out.len() + i]) matches EffectV::Analyze(r) && r.kind == s[i].kind
            && r.trigger == s[i].trigger && (s[i].trace.len() > 0 ==> r.trace == s[i].trace)) by {
            if i < n - 1 {
                assert(v.out[w.out.len() + i] == u.out[w.out.len() + i]);
            }
        }
    } else {
        assert(w.out.take(w.out.len() as int) =~= w.out);
    }
}

/// What triage asks about is what the model last said, up to 4000 characters, and why it was
/// stopped; what breaks a loop tells how often it went round, and the number to choose by.
pub proof fn lemma_prompts(reason: Seq<char>, partial: Seq<char>, n: int, roll: int)
    ensures
        exists|a: Seq<char>, b: Seq<char>, c: Seq<char>|
            triage_prompt(reason, partial) == #[trigger] (a + reason + b + take_chars(partial, 4000)
                + c),
        exists|a: Seq<char>, b: Seq<char>, c: Seq<char>|
            tie_breaker(n, roll) == #[trigger] (a + dec(n) + b + dec(roll) + c),
{
    let a = "The coding agent's LLM appeared stuck ("@;
    let b = ") and was interrupted.\n\nHere is the accumulated output/reasoning that was repeating (truncated):\n\"\"\"\n"@;
    let c = "\n\"\"\"\n\nThe model was going in circles. Identify what it was stuck on, then state the SINGLE most concrete next action it should take to make progress. Be specific: name the file, the function, the exact change. Answer in 2-3 sentences max."@;
    assert(triage_prompt(reason, partial) == (a + reason + b + take_chars(partial, 4000) + c));
    let x = "You have repeated the same approach "@;
    let y = " times across turns and it is not working. You MUST try a DIFFERENT approach this time — not a minor variation of the same one. If you need a tie breaker in choosing a different approach, here is a random number for you: "@;
    let z = ". Use it to pick between alternatives you haven't tried yet."@;
    assert(tie_breaker(n, roll) == (x + dec(n) + y + dec(roll) + z));
}

// ---- calls that come in

/// A batch of tool calls is recorded whole, as it came, and counts as a turn that the model has
/// ended; every call of it is pending.
pub proof fn lemma_batch_is_taken(w: AgentV, calls: Seq<JsonV>)
    requires
        w.conv.iteration_count < u32::MAX,
    ensures
        ({
            let v = w.tool_calls(calls);
            &&& v == (AgentV { conv: v.conv, ..w })
            &&& v.conv.iteration_count == w.conv.iteration_count + 1
            &&& !v.conv.in_flight
            &&& v.conv.messages.drop_last() == w.conv.messages
            &&& v.conv.messages.last().get("tool_calls"@) == Some(JsonV::Array(calls))
            &&& v.conv.messages.last().get("role"@) == Some(JsonV::Str("assistant"@))
            &&& v.conv.tool_call_order.len() == calls.len()
            &&& forall|i: int|
                0 <= i < calls.len() ==> v.conv.pending_tool_calls.contains(
                    #[trigger] v.conv.tool_call_order[i],
                )
            &&& v.conv.pending_messages == w.conv.pending_messages
            &&& v.conv.reasoning.len() == 0 && v.conv.partial.len() == 0
        }),
{
    let s = StateV { in_flight: false, ..w.conv };
    lemma_calls_are_recorded(s, calls);
    let t = s.add_tool_calls(calls);
    assert forall|i: int| 0 <= i < calls.len() implies t.pending_tool_calls.contains(
        #[trigger] t.tool_call_order[i],
    ) by {
        assert(t.tool_call_order.contains(t.tool_call_order[i]));
    }
}

} // verus!
