//! The end of a turn: deliver what is queued, ask the model again, stop at the limit of
//! iterations, and return from a subagent to its parent.

use crate::agent::{frames, AgentActor, AgentState, AgentV, Effect, EffectV};
use crate::five_whys::{truncated, Surprise, SurpriseV};
use crate::json::{jsons, Json, JsonV};
use crate::state::{
    call_name, calls_of, has_role, last_with_role, name_of_call, role_is, ConversationState,
    StateV,
};
use crate::text::{dec, dec_text, opt_text, owned, same, take_chars, take_text, texts};
use vstd::prelude::*;

verus! {

/// The id of the last of the first `k` calls that calls a subagent.
pub open spec fn last_subagent_call(calls: Seq<JsonV>, k: int) -> Option<Seq<char>>
    decreases k,
{
    if k <= 0 {
        None
    } else if call_name(calls[k - 1]) == "call_subagent"@ {
        Some(calls[k - 1].str_or("id"@, Seq::empty()))
    } else {
        last_subagent_call(calls, k - 1)
    }
}

/// The id of the last call of a subagent in the first `n` messages.
pub open spec fn subagent_call(ms: Seq<JsonV>, n: int) -> Option<Seq<char>>
    decreases n,
{
    if n <= 0 {
        None
    } else {
        let m = ms[n - 1];
        let here = last_subagent_call(calls_of(m), calls_of(m).len() as int);
        if has_role(m, "assistant"@) && here is Some {
            here
        } else {
            subagent_call(ms, n - 1)
        }
    }
}

/// What a subagent has to show for itself when it runs out of iterations.
pub open spec fn partial_result(conv: StateV, max: u32) -> Seq<char> {
    let fallback = "Subagent hit max_iterations ("@ + dec(max as int) + ")"@;
    match conv.last_turn() {
        Some(m) => m.str_or("content"@, fallback),
        None => fallback,
    }
}

/// The surprise of running out of iterations.
pub open spec fn limit_surprise(conv: StateV, max: u32, now_ms: u64) -> SurpriseV {
    SurpriseV {
        kind: "max_iterations"@,
        trigger: "hit "@ + dec(max as int) + " iterations limit"@,
        trace: truncated(conv.summary(10), 8000),
        ms: now_ms,
    }
}

/// What the user reads when the agent runs out of iterations.
pub open spec fn limit_note(max: u32) -> Seq<char> {
    "Max iterations ("@ + dec(max as int)
        + ") reached. Handoff saved to tmp/maxiter-handoff.txt. Use `restart_from_file {\"path\":\"tmp/maxiter-handoff.txt\"}` to resume, or send a message to continue."@
}

impl AgentV {
    /// Adds the first `n` of the messages to the conversation and shows each.
    pub open spec fn deliver(self, a: &AgentActor, ms: Seq<Seq<char>>, n: int) -> AgentV
        decreases n,
    {
        if n <= 0 {
            self
        } else {
            let w = self.deliver(a, ms, n - 1);
            w.with_conv(w.conv.add_user(ms[n - 1])).say(
                a,
                ms[n - 1],
                "UserMessageDisplayed"@,
                w.conv.depth,
            )
        }
    }

    /// The agent with an empty queue of user messages.
    pub open spec fn drained(self) -> AgentV {
        self.with_conv(StateV { pending_messages: Seq::empty(), ..self.conv })
    }

    /// Delivers the queued messages, with a fresh iteration budget where there are any.
    pub open spec fn take_queue(self, a: &AgentActor) -> AgentV {
        let ms = self.conv.pending_messages;
        if ms.len() == 0 {
            self.drained()
        } else {
            let w = self.drained();
            w.with_conv(StateV { iteration_count: 0, ..w.conv }).deliver(a, ms, ms.len() as int)
        }
    }

    /// Goes on once every tool call is answered: delivers the queue, then asks the model
    /// again, or stops at the limit of iterations.
    pub open spec fn advance(self, a: &AgentActor, now_ms: u64) -> AgentV
        decreases self.stack.len(), 1int,
    {
        let w = self.take_queue(a);
        if !self.conv.all_resolved() {
            self
        } else if w.conv.iteration_count < a.max_iterations {
            w.infer(a)
        } else {
            let s = limit_surprise(w.conv, a.max_iterations, now_ms);
            let v = w.with_conv(w.conv.record_surprise(s));
            if v.conv.depth > 0 && v.stack.len() > 0 {
                proof {
                    lemma_take_queue_keeps(self, a);
                }
                v.say(
                    a,
                    "[subagent] reached max iterations ("@ + dec(a.max_iterations as int)
                        + ") — returning partial"@,
                    "Warning"@,
                    v.conv.depth,
                ).pop(a, partial_result(v.conv, a.max_iterations), now_ms)
            } else {
                v.emit(
                    EffectV::SaveFile {
                        path: "tmp/maxiter-handoff.txt"@,
                        text: w.conv.summary(10),
                    },
                ).say(a, limit_note(a.max_iterations), "Warning"@, 0)
            }
        }
    }

    /// Returns to the parent: its conversation is restored, and what the subagent said
    /// answers the call that started it.
    pub open spec fn pop(self, a: &AgentActor, result: Seq<char>, now_ms: u64) -> AgentV
        decreases self.stack.len(), 0int,
    {
        if self.stack.len() == 0 {
            self
        } else {
            self.restored(a, result).advance(a, now_ms)
        }
    }

    /// The parent's conversation, with the answer of the subagent.
    pub open spec fn restored(self, a: &AgentActor, result: Seq<char>) -> AgentV {
        let saved = self.stack.last().state;
        let id = subagent_call(saved.messages, saved.messages.len() as int);
        let answered = match id {
            Some(id) => saved.add_tool_result(id, "call_subagent"@, result, true).resolve(id),
            None => saved,
        };
        let w = AgentV {
            conv: StateV { active_system: None, ..answered },
            stack: self.stack.drop_last(),
            ..self
        };
        let shown = match id {
            Some(id) => w.say(
                a,
                "  [tool_result] call_subagent("@ + id + ") => "@ + take_chars(result, 500),
                "LlmToolResult"@,
                w.conv.depth,
            ),
            None => w,
        };
        shown.say(
            a,
            "[subagent] completed: "@ + take_chars(result, 200),
            "SubagentEnd"@,
            (w.conv.depth + 1) as usize,
        )
    }
}

proof fn lemma_deliver_keeps(w: AgentV, a: &AgentActor, ms: Seq<Seq<char>>, n: int)
    ensures
        w.deliver(a, ms, n).stack == w.stack,
        w.deliver(a, ms, n).conv.depth == w.conv.depth,
        w.deliver(a, ms, n).conv.pending_messages == w.conv.pending_messages,
        w.deliver(a, ms, n).conv.active_system == w.conv.active_system,
        w.deliver(a, ms, n).conv.iteration_count == w.conv.iteration_count,
        w.deliver(a, ms, n).conv.in_flight == w.conv.in_flight,
        w.deliver(a, ms, n).conv.pending_tool_calls == w.conv.pending_tool_calls,
    decreases n,
{
    if n > 0 {
        lemma_deliver_keeps(w, a, ms, n - 1);
    }
}

/// Delivering the queue leaves the parents, the depth and the pending calls.
pub proof fn lemma_take_queue_keeps(w: AgentV, a: &AgentActor)
    ensures
        w.take_queue(a).stack == w.stack,
        w.take_queue(a).conv.depth == w.conv.depth,
        w.take_queue(a).conv.pending_messages.len() == 0,
        w.take_queue(a).conv.pending_tool_calls == w.conv.pending_tool_calls,
{
    let d = w.drained();
    lemma_deliver_keeps(
        d.with_conv(StateV { iteration_count: 0, ..d.conv }),
        a,
        w.conv.pending_messages,
        w.conv.pending_messages.len() as int,
    );
}

/// The end of a turn keeps the depth of every conversation the number of its parents.
pub proof fn lemma_advance_wf(w: AgentV, a: &AgentActor, now_ms: u64)
    requires
        w.wf(),
    ensures
        w.advance(a, now_ms).wf(),
        w.advance(a, now_ms).stack.len() <= w.stack.len(),
    decreases w.stack.len(), 1int,
{
    lemma_take_queue_keeps(w, a);
    let q = w.take_queue(a);
    if w.conv.all_resolved() && q.conv.iteration_count >= a.max_iterations {
        let s = limit_surprise(q.conv, a.max_iterations, now_ms);
        let v = q.with_conv(q.conv.record_surprise(s));
        if v.conv.depth > 0 {
            let said = v.say(
                a,
                "[subagent] reached max iterations ("@ + dec(a.max_iterations as int)
                    + ") — returning partial"@,
                "Warning"@,
                v.conv.depth,
            );
            lemma_pop_wf(said, a, partial_result(v.conv, a.max_iterations), now_ms);
        }
    }
}

/// Returning to the parent does so too.
pub proof fn lemma_pop_wf(w: AgentV, a: &AgentActor, result: Seq<char>, now_ms: u64)
    requires
        w.wf(),
    ensures
        w.pop(a, result, now_ms).wf(),
        w.pop(a, result, now_ms).stack.len() <= w.stack.len(),
    decreases w.stack.len(), 0int,
{
    if w.stack.len() > 0 {
        let r = w.restored(a, result);
        assert(w.stack.last() == w.stack[w.stack.len() - 1]);
        assert(r.wf()) by {
            assert forall|i: int| 0 <= i < r.stack.len() implies (#[trigger] r.stack[i]).state.depth
                == i by {
                assert(r.stack[i] == w.stack[i]);
            }
        }
        lemma_advance_wf(r, a, now_ms);
    }
}

/// The id of the last call of a subagent in a conversation.
fn find_subagent_call(messages: &Vec<Json>) -> (r: Option<String>)
    ensures
        opt_text(r) == subagent_call(jsons(messages@), messages@.len() as int),
{
    proof {
        reveal_strlit("");
        assert(""@ =~= Seq::empty());
    }
    let ghost ms = jsons(messages@);
    let mut n: usize = messages.len();
    while n > 0
        invariant
            n <= messages@.len(),
            ms == jsons(messages@),
            ""@ == Seq::<char>::empty(),
            subagent_call(ms, messages@.len() as int) == subagent_call(ms, n as int),
        decreases n,
    {
        let m = &messages[n - 1];
        assert(ms[n - 1] == m@);
        if role_is(m, "assistant") {
            if let Some(v) = m.get("tool_calls") {
                if let Some(calls) = v.as_array() {
                    let ghost cs = calls_of(m@);
                    let mut k: usize = calls.len();
                    while k > 0
                        invariant
                            k <= calls@.len(),
                            cs == jsons(calls@),
                            cs == calls_of(m@),
                            0 < n <= messages@.len(),
                            ms[n - 1] == m@,
                            has_role(m@, "assistant"@),
                            ""@ == Seq::<char>::empty(),
                            ms == jsons(messages@),
                            subagent_call(ms, messages@.len() as int) == subagent_call(
                                ms,
                                n as int,
                            ),
                            last_subagent_call(cs, cs.len() as int) == last_subagent_call(
                                cs,
                                k as int,
                            ),
                        decreases k,
                    {
                        assert(cs[k - 1] == calls@[k - 1]@);
                        if same(name_of_call(&calls[k - 1]), "call_subagent") {
                            return Some(owned(calls[k - 1].str_or("id", "")));
                        }
                        k = k - 1;
                    }
                }
            }
        }
        n = n - 1;
    }
    None
}

/// What a subagent has to show for itself when it runs out of iterations.
fn last_output(conv: &ConversationState, max: u32) -> (r: String)
    ensures
        r@ == partial_result(conv@, max),
{
    let mut fallback = owned("Subagent hit max_iterations (");
    fallback.append(dec_text(max as u64).as_str());
    fallback.append(")");
    let ghost ms = conv@.messages;
    let mut i: usize = conv.messages.len();
    while i > 0
        invariant
            i <= conv.messages@.len(),
            ms == jsons(conv.messages@),
            ms == conv@.messages,
            fallback@ == "Subagent hit max_iterations ("@ + dec(max as int) + ")"@,
            conv@.last_turn() == last_with_role(ms, "assistant"@, i as int),
        decreases i,
    {
        assert(ms[i - 1] == conv.messages@[i - 1]@);
        if role_is(&conv.messages[i - 1], "assistant") {
            return owned(conv.messages[i - 1].str_or("content", fallback.as_str()));
        }
        i = i - 1;
    }
    fallback
}

impl AgentActor {
    /// Adds the messages to the conversation and shows each.
    pub fn deliver(&self, st: &mut AgentState, ms: &Vec<String>)
        ensures
            final(st)@ == old(st)@.deliver(self, texts(ms@), ms@.len() as int),
    {
        let mut i: usize = 0;
        while i < ms.len()
            invariant
                i <= ms@.len(),
                st@ == old(st)@.deliver(self, texts(ms@), i as int),
            decreases ms.len() - i,
        {
            let depth: usize = st.conv.subagent_depth;
            st.conv.add_user_message(ms[i].as_str());
            self.say(st, ms[i].as_str(), "UserMessageDisplayed", depth);
            i = i + 1;
        }
    }

    /// Delivers the queued messages, with a fresh iteration budget where there are any.
    fn take_queue(&self, st: &mut AgentState)
        ensures
            final(st)@ == old(st)@.take_queue(self),
    {
        let pending = st.conv.drain_pending_messages();
        assert(texts(pending@).len() == pending@.len());
        if pending.len() > 0 {
            st.conv.reset_iteration();
            self.deliver(st, &pending);
        }
    }

    /// Goes on once every tool call is answered: delivers what the user sent meanwhile,
    /// then asks the model again. At the limit of iterations a subagent returns to its
    /// parent with what it has; the agent at the top saves a handoff and stops.
    pub fn advance_turn_if_resolved(&self, st: &mut AgentState, now_ms: u64)
        requires
            old(st)@.wf(),
        ensures
            final(st)@ == old(st)@.advance(self, now_ms),
            final(st)@.wf(),
        decreases old(st)@.stack.len(), 1int,
    {
        proof {
            lemma_advance_wf(st@, self, now_ms);
            lemma_take_queue_keeps(st@, self);
        }
        if !st.conv.all_tool_calls_resolved() {
            return ;
        }
        self.take_queue(st);
        if !st.conv.max_reached(self.max_iterations) {
            self.infer(st);
            return ;
        }
        let summary = st.conv.recent_messages_summary(10);
        let mut trigger = owned("hit ");
        trigger.append(dec_text(self.max_iterations as u64).as_str());
        trigger.append(" iterations limit");
        let surprise = Surprise::at("max_iterations", trigger.as_str(), now_ms).with_trace(
            summary.as_str(),
        );
        st.conv.record_surprise(surprise);
        if st.conv.subagent_depth > 0 && st.stack.len() > 0 {
            let result = last_output(&st.conv, self.max_iterations);
            let mut text = owned("[subagent] reached max iterations (");
            text.append(dec_text(self.max_iterations as u64).as_str());
            text.append(") — returning partial");
            let depth: usize = st.conv.subagent_depth;
            self.say(st, text.as_str(), "Warning", depth);
            self.pop_subagent(st, result.as_str(), now_ms);
        } else {
            st.emit(Effect::SaveFile { path: owned("tmp/maxiter-handoff.txt"), text: summary });
            let mut text = owned("Max iterations (");
            text.append(dec_text(self.max_iterations as u64).as_str());
            text.append(
                ") reached. Handoff saved to tmp/maxiter-handoff.txt. Use `restart_from_file {\"path\":\"tmp/maxiter-handoff.txt\"}` to resume, or send a message to continue.",
            );
            self.say(st, text.as_str(), "Warning", 0);
        }
    }

    /// Returns from a subagent to its parent: the parent's conversation is restored, the
    /// result answers the call that started the subagent, and the parent goes on. Does
    /// nothing where no parent waits.
    pub fn pop_subagent(&self, st: &mut AgentState, result_text: &str, now_ms: u64)
        requires
            old(st)@.wf(),
        ensures
            final(st)@ == old(st)@.pop(self, result_text@, now_ms),
            final(st)@.wf(),
        decreases old(st)@.stack.len(), 0int,
    {
        let ghost start = st@;
        proof {
            lemma_pop_wf(st@, self, result_text@, now_ms);
            assert(frames(st.stack@).len() == st.stack@.len());
        }
        let ghost before = st.stack@;
        let frame = match st.stack.pop() {
            Some(f) => f,
            None => {
                assert(st@ == start);
                return ;
            },
        };
        assert(frames(st.stack@) =~= start.stack.drop_last());
        assert(start.stack.last() == frame@);
        assert(frame@.state.depth == start.stack.len() - 1) by {
            assert(start.stack[start.stack.len() - 1] == frame@);
        }
        st.conv = frame.saved_state;
        let id = find_subagent_call(&st.conv.messages);
        if let Some(call) = &id {
            st.conv.add_tool_result(call.as_str(), "call_subagent", result_text, true);
            st.conv.resolve_tool_call(call.as_str());
        }
        st.conv.active_system_message = None;
        let depth: usize = st.conv.subagent_depth;
        if let Some(call) = &id {
            let mut shown = owned("  [tool_result] call_subagent(");
            shown.append(call.as_str());
            shown.append(") => ");
            shown.append(take_text(result_text, 500).as_str());
            self.say(st, shown.as_str(), "LlmToolResult", depth);
        }
        let mut done = owned("[subagent] completed: ");
        done.append(take_text(result_text, 200).as_str());
        self.say(st, done.as_str(), "SubagentEnd", depth + 1);
        assert(st@ == start.restored(self, result_text@));
        proof {
            assert forall|i: int| 0 <= i < st@.stack.len() implies (
            #[trigger] st@.stack[i]).state.depth == i by {
                assert(st@.stack[i] == start.stack[i]);
            }
        }
        self.advance_turn_if_resolved(st, now_ms);
    }
}

} // verus!
