//! What the agent does on each event that reaches it: user input, output and stream of
//! the model, tool calls and their results, commands, usage statistics and timers.

use crate::actor::Actor;
use crate::agent::{stamped, AgentActor, AgentState, AgentV, Effect, EffectV};
use crate::agent_tools::{result_line, result_text};
use crate::five_whys::{truncated, Surprise, SurpriseV};
use crate::json::{clone_jsons, jsons, obj1, obj1_v, obj2, obj2_v, Json, JsonV};
use crate::message::{Message, MessageV};
use crate::event::Usage;
use crate::saved_state::state_json;
use crate::state::{ConversationState, StateV};
use crate::text::{
    contains, contains_str, dec, dec_text, join, join_strings, owned, same, starts_with,
    starts_with_str, take_chars, take_text, texts, trim, trim_str,
};
use crate::tool::{ToolResultMessage, ToolResultV};
use vstd::prelude::*;

verus! {

impl AgentV {
    // ---- user input

    /// A message of the user: queued while the agent is busy, else the start of a turn.
    pub open spec fn user_input(self, a: &AgentActor, text: Seq<char>) -> AgentV {
        let c = self.conv;
        if !c.idle() {
            self.with_conv(StateV { pending_messages: c.pending_messages.push(text), ..c }).say(
                a,
                text,
                "UserMessageQueued"@,
                0,
            )
        } else {
            let fresh = StateV { iteration_count: 0, ..c };
            let told = if c.was_interrupted {
                StateV { was_interrupted: false, ..fresh.merge_user(text) }
            } else {
                fresh.add_user(text)
            };
            self.with_conv(told).say(a, text, "UserMessageDisplayed"@, 0).infer(a)
        }
    }

    // ---- output of the model

    /// The model was stuck: what it said is kept, the incident recorded, and guidance asked
    /// for where the agent knows how to reach the model.
    pub open spec fn triage(
        self,
        a: &AgentActor,
        reason: Seq<char>,
        partial: Seq<char>,
        now_ms: u64,
    ) -> AgentV {
        let c = StateV { in_flight: false, was_interrupted: true, ..self.conv };
        let kept = if partial.len() > 0 {
            c.add_assistant(partial)
        } else {
            c
        };
        let s = SurpriseV {
            kind: if contains(reason, "idle"@) {
                "idle_timeout"@
            } else {
                "within_stream_loop"@
            },
            trigger: "triage: "@ + reason,
            trace: truncated(partial, 8000),
            ms: now_ms,
        };
        let w = self.with_conv(kept.record_surprise(s)).say(
            a,
            "Model "@ + reason + " — running triage..."@,
            "Warning"@,
            0,
        );
        if a.llm_config is Some {
            w.emit(EffectV::Triage { reason, prompt: triage_prompt(reason, partial) })
        } else {
            w
        }
    }

    /// The guidance that triage brought, shown and given to the agent as a user's message.
    pub open spec fn guided(self, a: &AgentActor, reason: Seq<char>, guidance: Seq<char>) -> AgentV {
        self.say(a, "Triage guidance: "@ + trim(guidance), "Info"@, 0).emit(
            EffectV::Publish(
                MessageV::of_text(
                    a.input_topic@,
                    a.name(),
                    "The model was stuck ("@ + reason
                        + ") and has been interrupted. Triage guidance: "@ + trim(guidance)
                        + "\n\nPlease continue based on this guidance. Do NOT repeat your previous reasoning."@,
                ),
            ),
        )
    }

    /// The user interrupted the model: queued messages are dropped, what was streamed is
    /// kept.
    pub open spec fn interrupted(self, a: &AgentActor, output: Seq<char>) -> AgentV {
        let c = StateV {
            was_interrupted: true,
            in_flight: false,
            reasoning: Seq::empty(),
            pending_messages: Seq::empty(),
            partial: Seq::empty(),
            ..self.conv
        };
        self.with_conv(
            if self.conv.partial.len() > 0 {
                c.add_assistant(self.conv.partial)
            } else {
                c
            },
        ).say(a, output, "Warning"@, 0)
    }

    /// Adds the first `n` messages to the conversation.
    pub open spec fn add_users(self, ms: Seq<Seq<char>>, n: int) -> AgentV
        decreases n,
    {
        if n <= 0 {
            self
        } else {
            let w = self.add_users(ms, n - 1);
            w.with_conv(w.conv.add_user(ms[n - 1]))
        }
    }

    /// The turn that a text of the assistant ends.
    pub open spec fn committed(self, output: Seq<char>) -> AgentV {
        let c = StateV { in_flight: false, ..self.conv }.add_assistant(output);
        self.with_conv(StateV { iteration_count: (c.iteration_count + 1) as u32, ..c })
    }

    /// A text of the assistant. Messages that the user sent meanwhile start another turn;
    /// else a subagent returns to its parent. The flag says that neither happened, so that
    /// the turn is to be checked for a loop.
    pub open spec fn answered(self, a: &AgentActor, output: Seq<char>, now_ms: u64) -> (
        AgentV,
        bool,
    ) {
        let w = self.committed(output);
        let ms = w.conv.pending_messages;
        let n = ms.len() as int;
        if w.stack.len() > 0 {
            if n > 0 {
                let v = w.drained().add_users(ms, n);
                (v.say(a, ms.last(), "UserMessageDisplayed"@, v.conv.depth).infer(a), false)
            } else if w.conv.depth > 0 && w.conv.all_resolved() {
                (w.drained().pop(a, output, now_ms), false)
            } else {
                (w.drained(), true)
            }
        } else if n > 0 {
            (w.drained().deliver(a, ms, n).infer(a), false)
        } else {
            (w.drained(), true)
        }
    }

    /// An output of the model; the flag says whether to check the turn for a loop.
    pub open spec fn llm_output(self, a: &AgentActor, m: MessageV, now_ms: u64) -> (AgentV, bool) {
        let output = m.payload_text();
        let kind = m.meta_type();
        if kind == Some("LlmIdleTimeout"@) {
            (self.triage(a, "went idle (>90s no tokens)"@, output, now_ms), false)
        } else if kind == Some("LlmStuckLoop"@) {
            (self.triage(a, "stuck in a think-loop (repeated output)"@, output, now_ms), false)
        } else if starts_with(output, "Interrupted:"@) {
            (self.interrupted(a, output), false)
        } else {
            self.answered(a, output, now_ms)
        }
    }

    // ---- loops across turns

    /// Records the turn; where it repeats three times, collapses the repetition, warns, and
    /// tells the agent to try something else, with a number to choose by.
    pub open spec fn break_loop(self, a: &AgentActor, roll: u32, now_ms: u64) -> AgentV {
        let c = self.conv.record_turn();
        let n = self.conv.turn_streak();
        if n < 3 {
            self.with_conv(c)
        } else {
            let removed = c.collapse_count();
            let s = SurpriseV {
                kind: "cross_turn_loop"@,
                trigger: dec(n) + " consecutive near-identical turns (streak="@ + dec(removed)
                    + ")"@,
                trace: Seq::empty(),
                ms: now_ms,
            };
            self.with_conv(c.collapse()).say(
                a,
                "Cross-turn loop detected: "@ + dec(n) + " consecutive near-identical turns ("@
                    + dec(removed) + " messages compacted from history). Injecting tie-breaker."@,
                "Warning"@,
                0,
            ).emit(
                EffectV::Publish(
                    MessageV::of_text(a.input_topic@, a.name(), tie_breaker(n, roll as int)),
                ),
            ).with_conv(c.collapse().record_surprise(s))
        }
    }

    // ---- stream

    /// A chunk of the model's stream: remembered, and passed on to the user interface.
    pub open spec fn stream_chunk(self, a: &AgentActor, m: MessageV) -> AgentV {
        let c = self.conv;
        let heard = match m.payload.as_str() {
            Some(chunk) => if m.meta_type() == Some("LlmThinking"@) {
                StateV { reasoning: c.reasoning + chunk, ..c }
            } else if m.meta_type() == Some("LlmStream"@) {
                StateV { partial: c.partial + chunk, ..c }
            } else {
                c
            },
            None => c,
        };
        self.with_conv(heard).emit(
            EffectV::Publish(stamped(MessageV { topic: a.stream_output_topic@, ..m }, c.depth)),
        )
    }

    // ---- tools

    /// A batch of tool calls: committed, pending from now on.
    pub open spec fn tool_calls(self, calls: Seq<JsonV>) -> AgentV {
        let c = StateV { in_flight: false, ..self.conv }.add_tool_calls(calls);
        self.with_conv(StateV { iteration_count: (c.iteration_count + 1) as u32, ..c })
    }

    /// The result of a tool call.
    pub open spec fn tool_result(self, a: &AgentActor, r: ToolResultV, now_ms: u64) -> AgentV {
        let c = self.conv.add_tool_result(r.id, r.name, r.result, r.success).resolve(r.id);
        let text = if r.success {
            r.result
        } else {
            match r.error {
                Some(e) => e,
                None => "unknown"@,
            }
        };
        self.with_conv(c).say(
            a,
            result_line(r.success, r.name, r.id, text),
            "LlmToolResult"@,
            c.depth,
        ).advance(a, now_ms)
    }

    // ---- commands

    /// Takes the queued messages and hands them back to the user, to be edited.
    pub open spec fn retrieve_pending(self, a: &AgentActor) -> AgentV {
        let m = MessageV::new(
            a.stream_output_topic@,
            a.name(),
            obj1_v("text"@, JsonV::Str(join(self.conv.pending_messages, "\n"@))),
        ).with_type("RetrievedPending"@);
        self.drained().emit(EffectV::Publish(m))
    }

    /// Replaces the conversation by a loaded one and replays it to the user interface.
    pub open spec fn loaded(self, a: &AgentActor, c: StateV) -> AgentV {
        let m = MessageV::new(
            a.stream_output_topic@,
            a.name(),
            obj1_v("messages"@, JsonV::Array(c.messages)),
        ).with_type("StateReplay"@);
        self.with_conv(StateV { depth: self.conv.depth, ..c }).emit(EffectV::Publish(m)).say(
            a,
            "State loaded successfully"@,
            "Info"@,
            0,
        )
    }

    // ---- statistics and timers

    /// Usage statistics: recorded, reminders checked, and a warning where less than a fifth
    /// of the context window is left.
    pub open spec fn stats(self, a: &AgentActor, m: MessageV, percent_left: Seq<char>) -> AgentV {
        let u = usage_of(m.payload);
        let c = self.conv.record_usage(u, window_of(m.payload));
        let d = match u.input_tokens {
            Some(n) => c.check_reminders(n),
            None => c,
        };
        let w = self.with_conv(d);
        match (d.context_remaining(), d.context_window) {
            (Some(left), Some(window)) => if window > 0 && left * 5 < window {
                w.say(
                    a,
                    "Context nearly full: "@ + dec(left as int) + " tokens remaining ("@
                        + percent_left
                        + "%). Consider calling restart_from_file with a handoff note."@,
                    "Warning"@,
                    0,
                )
            } else {
                w
            },
            _ => w,
        }
    }

    /// Shows the first `n` messages of wake-ups.
    pub open spec fn show_wake_ups(self, a: &AgentActor, ms: Seq<Seq<char>>, n: int) -> AgentV
        decreases n,
    {
        if n <= 0 {
            self
        } else {
            self.show_wake_ups(a, ms, n - 1).say(a, "[wake-up] "@ + ms[n - 1], "Info"@, 0)
        }
    }

    /// The timer: due wake-ups are queued and shown, and start a turn.
    pub open spec fn wake(self, a: &AgentActor, now_ms: u64) -> AgentV {
        let fired = self.conv.due_wake_ups(now_ms / 1000);
        let w = self.with_conv(self.conv.check_wake_ups(now_ms / 1000));
        if fired.len() == 0 {
            w
        } else {
            w.show_wake_ups(a, fired, fired.len() as int).advance(a, now_ms)
        }
    }
}

/// What triage asks the model.
pub open spec fn triage_prompt(reason: Seq<char>, partial: Seq<char>) -> Seq<char> {
    "The coding agent's LLM appeared stuck ("@ + reason
        + ") and was interrupted.\n\nHere is the accumulated output/reasoning that was repeating (truncated):\n\"\"\"\n"@
        + take_chars(partial, 4000)
        + "\n\"\"\"\n\nThe model was going in circles. Identify what it was stuck on, then state the SINGLE most concrete next action it should take to make progress. Be specific: name the file, the function, the exact change. Answer in 2-3 sentences max."@
}

/// What tells the agent to try something else.
pub open spec fn tie_breaker(n: int, roll: int) -> Seq<char> {
    "You have repeated the same approach "@ + dec(n)
        + " times across turns and it is not working. You MUST try a DIFFERENT approach this time — not a minor variation of the same one. If you need a tie breaker in choosing a different approach, here is a random number for you: "@
        + dec(roll) + ". Use it to pick between alternatives you haven't tried yet."@
}

/// The usage that a payload of statistics reports.
pub open spec fn usage_of(p: JsonV) -> Usage {
    let u = p.at("usage"@);
    Usage {
        input_tokens: u.at("input_tokens"@).as_u64(),
        output_tokens: u.at("output_tokens"@).as_u64(),
        total_tokens: u.at("total_tokens"@).as_u64(),
        reasoning_tokens: u.at("reasoning_tokens"@).as_u64(),
    }
}

/// The context window that a payload of statistics reports.
pub open spec fn window_of(p: JsonV) -> Option<usize> {
    match p.at("context_window"@).as_u64() {
        Some(n) => Some(n as usize),
        None => None,
    }
}

/// The number under a key.
fn number_at(v: Option<&Json>, k: &str) -> (r: Option<u64>)
    ensures
        r == match v {
            Some(j) => j@.at(k@).as_u64(),
            None => None,
        },
{
    match v {
        Some(j) => match j.get(k) {
            Some(n) => n.as_u64(),
            None => None,
        },
        None => None,
    }
}

/// A command to the agent about its state.
#[derive(Debug)]
pub enum StateCommand {
    /// For another agent, or unknown.
    Ignore,
    /// Publish the state.
    Dump,
    /// Load the state from this JSON.
    Load(Json),
    /// Hand the queued messages back.
    RetrievePending,
}

/// The model of a [`StateCommand`].
pub enum StateCommandV {
    Ignore,
    Dump,
    Load(JsonV),
    RetrievePending,
}

impl View for StateCommand {
    type V = StateCommandV;

    open spec fn view(&self) -> StateCommandV {
        match self {
            StateCommand::Ignore => StateCommandV::Ignore,
            StateCommand::Dump => StateCommandV::Dump,
            StateCommand::Load(j) => StateCommandV::Load(j@),
            StateCommand::RetrievePending => StateCommandV::RetrievePending,
        }
    }
}

/// The command that a payload holds for the agent of that name.
pub open spec fn state_command(me: Seq<char>, p: JsonV) -> StateCommandV {
    let kind = p.str_at("type"@);
    if p.str_or("agent_id"@, Seq::empty()) != me {
        StateCommandV::Ignore
    } else if kind == Some("dump_state"@) {
        StateCommandV::Dump
    } else if kind == Some("load_state"@) {
        StateCommandV::Load(p.at("state"@))
    } else if kind == Some("retrieve_pending"@) {
        StateCommandV::RetrievePending
    } else {
        StateCommandV::Ignore
    }
}

impl AgentActor {
    /// A message on the input topic. While a tool call is pending or a request under way it
    /// is queued; else it starts a turn with a fresh iteration budget.
    pub fn on_user_input(&self, st: &mut AgentState, msg: &Message)
        ensures
            final(st)@ == old(st)@.user_input(self, msg@.payload_text()),
    {
        let text = msg.payload_text();
        if !st.conv.all_tool_calls_resolved() || st.conv.inference_in_flight {
            st.conv.buffer_user_message(text.clone());
            self.say(st, text.as_str(), "UserMessageQueued", 0);
            return ;
        }
        st.conv.reset_iteration();
        if st.conv.was_interrupted {
            st.conv.merge_user_message(text.as_str());
            st.conv.was_interrupted = false;
        } else {
            st.conv.add_user_message(text.as_str());
        }
        self.say(st, text.as_str(), "UserMessageDisplayed", 0);
        self.infer(st);
    }

    /// The model went idle or repeated itself: keeps what it said, records the incident,
    /// warns, and asks for guidance.
    pub fn triage_stuck_model(&self, st: &mut AgentState, reason: &str, partial: &str, now_ms: u64)
        ensures
            final(st)@ == old(st)@.triage(self, reason@, partial@, now_ms),
    {
        st.conv.inference_in_flight = false;
        st.conv.was_interrupted = true;
        if !partial.is_empty() {
            st.conv.add_assistant_message(partial);
        }
        let kind = if contains_str(reason, "idle") {
            "idle_timeout"
        } else {
            "within_stream_loop"
        };
        let mut trigger = owned("triage: ");
        trigger.append(reason);
        st.conv.record_surprise(
            Surprise::at(kind, trigger.as_str(), now_ms).with_trace(partial),
        );
        let mut warning = owned("Model ");
        warning.append(reason);
        warning.append(" — running triage...");
        self.say(st, warning.as_str(), "Warning", 0);
        if self.llm_config.is_some() {
            let mut prompt = owned("The coding agent's LLM appeared stuck (");
            prompt.append(reason);
            prompt.append(
                ") and was interrupted.\n\nHere is the accumulated output/reasoning that was repeating (truncated):\n\"\"\"\n",
            );
            prompt.append(take_text(partial, 4000).as_str());
            prompt.append(
                "\n\"\"\"\n\nThe model was going in circles. Identify what it was stuck on, then state the SINGLE most concrete next action it should take to make progress. Be specific: name the file, the function, the exact change. Answer in 2-3 sentences max.",
            );
            st.emit(Effect::Triage { reason: owned(reason), prompt });
        }
    }

    /// The guidance that triage brought: shown, and given to the agent as a user's message.
    pub fn on_triage_guidance(&self, st: &mut AgentState, reason: &str, guidance: &str)
        ensures
            final(st)@ == old(st)@.guided(self, reason@, guidance@),
    {
        let g = trim_str(guidance);
        let mut info = owned("Triage guidance: ");
        info.append(g.as_str());
        self.say(st, info.as_str(), "Info", 0);
        let mut inject = owned("The model was stuck (");
        inject.append(reason);
        inject.append(") and has been interrupted. Triage guidance: ");
        inject.append(g.as_str());
        inject.append(
            "\n\nPlease continue based on this guidance. Do NOT repeat your previous reasoning.",
        );
        let msg = Message::text(self.input_topic.as_str(), self.id().as_str(), inject.as_str());
        st.emit(Effect::Publish(msg));
    }

    fn on_interrupt(&self, st: &mut AgentState, output: &str)
        ensures
            final(st)@ == old(st)@.interrupted(self, output@),
    {
        st.conv.was_interrupted = true;
        st.conv.inference_in_flight = false;
        st.conv.clear_reasoning();
        let dropped = st.conv.drain_pending_messages();
        if let Some(partial) = st.conv.drain_partial_response() {
            st.conv.add_assistant_message(partial.as_str());
        }
        self.say(st, output, "Warning", 0);
    }

    fn add_users(&self, st: &mut AgentState, ms: &Vec<String>)
        ensures
            final(st)@ == old(st)@.add_users(texts(ms@), ms@.len() as int),
    {
        let mut i: usize = 0;
        while i < ms.len()
            invariant
                i <= ms@.len(),
                st@ == old(st)@.add_users(texts(ms@), i as int),
            decreases ms.len() - i,
        {
            st.conv.add_user_message(ms[i].as_str());
            i = i + 1;
        }
    }

    fn on_answer(&self, st: &mut AgentState, output: &str, now_ms: u64) -> (r: bool)
        requires
            old(st)@.wf(),
            old(st)@.conv.iteration_count < u32::MAX,
        ensures
            (final(st)@, r) == old(st)@.answered(self, output@, now_ms),
            final(st)@.wf(),
    {
        let ghost start = st@;
        st.conv.inference_in_flight = false;
        st.conv.add_assistant_message(output);
        st.conv.increment_iteration();
        let ghost w = start.committed(output@);
        assert(st@ == w);
        let pending = st.conv.drain_pending_messages();
        let ghost ms = w.conv.pending_messages;
        assert(texts(pending@) == ms);
        assert(texts(pending@).len() == pending@.len());
        assert(st@ == w.drained());
        assert(st@.stack.len() == st.stack@.len());
        if st.stack.len() > 0 {
            if pending.len() > 0 {
                self.add_users(st, &pending);
                proof {
                    lemma_add_users_keeps(w.drained(), ms, ms.len() as int);
                }
                let depth: usize = st.conv.subagent_depth;
                self.say(
                    st,
                    pending[pending.len() - 1].as_str(),
                    "UserMessageDisplayed",
                    depth,
                );
                self.infer(st);
                false
            } else if st.conv.subagent_depth > 0 && st.conv.all_tool_calls_resolved() {
                self.pop_subagent(st, output, now_ms);
                false
            } else {
                true
            }
        } else if pending.len() > 0 {
            self.deliver(st, &pending);
            proof {
                lemma_deliver_stack(w.drained(), self, ms, ms.len() as int);
            }
            self.infer(st);
            false
        } else {
            true
        }
    }

    /// A message on the output topic of the model. Says whether the turn is to be checked
    /// for a loop.
    pub fn on_llm_output(&self, st: &mut AgentState, msg: &Message, now_ms: u64) -> (r: bool)
        requires
            old(st)@.wf(),
            old(st)@.conv.iteration_count < u32::MAX,
        ensures
            (final(st)@, r) == old(st)@.llm_output(self, msg@, now_ms),
            final(st)@.wf(),
    {
        let output = msg.payload_text();
        let (idle, stuck) = match msg.meta_type() {
            Some(t) => (same(t, "LlmIdleTimeout"), same(t, "LlmStuckLoop")),
            None => (false, false),
        };
        if idle {
            self.triage_stuck_model(st, "went idle (>90s no tokens)", output.as_str(), now_ms);
            false
        } else if stuck {
            self.triage_stuck_model(
                st,
                "stuck in a think-loop (repeated output)",
                output.as_str(),
                now_ms,
            );
            false
        } else if starts_with_str(output.as_str(), "Interrupted:") {
            self.on_interrupt(st, output.as_str());
            false
        } else {
            self.on_answer(st, output.as_str(), now_ms)
        }
    }

    /// Records the last turn. Where it repeats three times or more, the repetition is
    /// collapsed, the user warned, and the agent told to try something else, with a random
    /// number to choose by. Says whether it was so.
    pub fn maybe_break_cross_turn_loop(&self, st: &mut AgentState, roll: u32, now_ms: u64) -> (r:
        bool)
        requires
            old(st)@.conv.turn_cuts(),
        ensures
            final(st)@ == old(st)@.break_loop(self, roll, now_ms),
            r == (old(st)@.conv.turn_streak() >= 3),
    {
        let streak: usize = st.conv.record_turn_and_check_loop();
        if streak < 3 {
            return false;
        }
        let removed: usize = st.conv.collapse_loop_turns();
        let mut warning = owned("Cross-turn loop detected: ");
        warning.append(dec_text(streak as u64).as_str());
        warning.append(" consecutive near-identical turns (");
        warning.append(dec_text(removed as u64).as_str());
        warning.append(" messages compacted from history). Injecting tie-breaker.");
        self.say(st, warning.as_str(), "Warning", 0);
        let mut inject = owned("You have repeated the same approach ");
        inject.append(dec_text(streak as u64).as_str());
        inject.append(
            " times across turns and it is not working. You MUST try a DIFFERENT approach this time — not a minor variation of the same one. If you need a tie breaker in choosing a different approach, here is a random number for you: ",
        );
        inject.append(dec_text(roll as u64).as_str());
        inject.append(". Use it to pick between alternatives you haven't tried yet.");
        let msg = Message::text(self.input_topic.as_str(), self.id().as_str(), inject.as_str());
        st.emit(Effect::Publish(msg));
        let mut trigger = dec_text(streak as u64);
        trigger.append(" consecutive near-identical turns (streak=");
        trigger.append(dec_text(removed as u64).as_str());
        trigger.append(")");
        st.conv.record_surprise(Surprise::at("cross_turn_loop", trigger.as_str(), now_ms));
        true
    }

    /// A chunk of the model's stream: remembered, and passed on to the user interface.
    pub fn on_stream(&self, st: &mut AgentState, msg: &Message)
        ensures
            final(st)@ == old(st)@.stream_chunk(self, msg@),
            final(st).effects@.last() matches Effect::Publish(m) && m.reference == msg.reference,
    {
        let ghost start = st@;
        if let Some(chunk) = msg.payload_str() {
            let (thinking, text) = match msg.meta_type() {
                Some(t) => (same(t, "LlmThinking"), same(t, "LlmStream")),
                None => (false, false),
            };
            if thinking {
                st.conv.append_reasoning(chunk.as_str());
            } else if text {
                st.conv.append_partial_response(chunk.as_str());
            }
        }
        let mut forwarded = msg.clone();
        forwarded.topic = self.stream_output_topic.clone();
        let depth: usize = st.conv.subagent_depth;
        let stamped_msg = self.stamp_depth(forwarded, depth);
        st.emit(Effect::Publish(stamped_msg));
    }

    /// A message with tool calls: commits the batch and returns its calls, for the turn to
    /// be checked for a loop and each call to be dispatched. A payload that is no array is
    /// ignored.
    pub fn on_tool_calls(&self, st: &mut AgentState, msg: &Message) -> (r: Option<Vec<Json>>)
        requires
            old(st)@.wf(),
            old(st)@.conv.iteration_count < u32::MAX,
        ensures
            match r {
                Some(calls) => msg@.payload == JsonV::Array(jsons(calls@)) && final(st)@
                    == old(st)@.tool_calls(jsons(calls@)),
                None => !(msg@.payload is Array) && final(st)@ == old(st)@,
            },
            final(st)@.wf(),
    {
        let calls = match msg.payload.as_array() {
            Some(a) => clone_jsons(a),
            None => return None,
        };
        st.conv.inference_in_flight = false;
        st.conv.add_tool_calls(clone_jsons(&calls));
        st.conv.increment_iteration();
        Some(calls)
    }

    /// The result of a tool call: answers the call, is shown, and ends the turn where no
    /// other call is pending.
    pub fn on_tool_result(&self, st: &mut AgentState, r: &ToolResultMessage, now_ms: u64)
        requires
            old(st)@.wf(),
        ensures
            final(st)@ == old(st)@.tool_result(self, r@, now_ms),
            final(st)@.wf(),
    {
        st.conv.add_tool_result(
            r.tool_call_id.as_str(),
            r.tool_name.as_str(),
            r.result.as_str(),
            r.success,
        );
        st.conv.resolve_tool_call(r.tool_call_id.as_str());
        let text = if r.success {
            r.result.as_str()
        } else {
            match &r.error {
                Some(e) => e.as_str(),
                None => "unknown",
            }
        };
        let line = result_text(r.success, r.tool_name.as_str(), r.tool_call_id.as_str(), text);
        let depth: usize = st.conv.subagent_depth;
        self.say(st, line.as_str(), "LlmToolResult", depth);
        self.advance_turn_if_resolved(st, now_ms);
    }

    /// The command that a message on the control topic holds for this agent.
    pub fn state_command(&self, msg: &Message) -> (r: StateCommand)
        ensures
            r@ == state_command(self.name(), msg@.payload),
    {
        proof {
            reveal_strlit("");
            assert(""@ =~= Seq::empty());
        }
        let p = &msg.payload;
        if !same(p.str_or("agent_id", ""), self.id().as_str()) {
            return StateCommand::Ignore;
        }
        match p.str_at("type") {
            Some(t) => if same(t, "dump_state") {
                StateCommand::Dump
            } else if same(t, "load_state") {
                match p.get("state") {
                    Some(s) => StateCommand::Load(s.clone()),
                    None => StateCommand::Load(Json::Null),
                }
            } else if same(t, "retrieve_pending") {
                StateCommand::RetrievePending
            } else {
                StateCommand::Ignore
            },
            None => StateCommand::Ignore,
        }
    }

    /// The message that carries a dump of the state, where there is a topic for it.
    pub fn dump_message(&self, st: &AgentState) -> (r: Option<Message>)
        ensures
            match r {
                Some(m) => self.state_topic@.len() > 0 && exists|calls: Seq<Seq<char>>|
                    calls.no_duplicates() && calls.to_set() == st@.conv.pending_tool_calls && m@
                        == MessageV::new(
                        self.state_topic@,
                        self.name(),
                        obj2_v(
                            "agent_id"@,
                            JsonV::Str(self.name()),
                            "state"@,
                            #[trigger] state_json(st@.conv, calls),
                        ),
                    ),
                None => self.state_topic@.len() == 0,
            },
    {
        if self.state_topic.as_str().is_empty() {
            None
        } else {
            let state = st.conv.to_json();
            Some(
                Message::new(
                    self.state_topic.as_str(),
                    self.id().as_str(),
                    obj2("agent_id", Json::Str(self.id()), "state", state),
                ),
            )
        }
    }

    /// A loaded state, or why it could not be loaded. The parents that wait stay as they
    /// are, and with them the depth.
    pub fn on_state_loaded(&self, st: &mut AgentState, loaded: Result<ConversationState, String>)
        ensures
            final(st)@ == match loaded {
                Ok(c) => old(st)@.loaded(self, c@),
                Err(e) => old(st)@.say(self, "Failed to load state: "@ + e@, "Error"@, 0),
            },
            old(st)@.wf() ==> final(st)@.wf(),
    {
        match loaded {
            Ok(c) => {
                let replay = obj1("messages", Json::array(clone_jsons(&c.messages)));
                let depth: usize = st.conv.subagent_depth;
                st.conv = c;
                st.conv.subagent_depth = depth;
                let msg = Message::new(
                    self.stream_output_topic.as_str(),
                    self.id().as_str(),
                    replay,
                ).with_type("StateReplay");
                st.emit(Effect::Publish(msg));
                self.say(st, "State loaded successfully", "Info", 0);
            },
            Err(e) => {
                let mut text = owned("Failed to load state: ");
                text.append(e.as_str());
                self.say(st, text.as_str(), "Error", 0);
            },
        }
    }

    /// Takes the queued messages and hands them back to the user, to be edited.
    pub fn on_retrieve_pending(&self, st: &mut AgentState)
        ensures
            final(st)@ == old(st)@.retrieve_pending(self),
    {
        let drained = st.conv.drain_pending_messages();
        let text = join_strings(&drained, "\n");
        let msg = Message::new(
            self.stream_output_topic.as_str(),
            self.id().as_str(),
            obj1("text", Json::Str(text)),
        ).with_type("RetrievedPending");
        st.emit(Effect::Publish(msg));
    }

    /// Usage statistics of a turn. `percent_left` is the share of the context window that is
    /// left after them, in percent.
    pub fn on_stats(&self, st: &mut AgentState, msg: &Message, percent_left: &str)
        ensures
            final(st)@ == old(st)@.stats(self, msg@, percent_left@),
    {
        let u = msg.payload.get("usage");
        let usage = Usage {
            input_tokens: number_at(u, "input_tokens"),
            output_tokens: number_at(u, "output_tokens"),
            total_tokens: number_at(u, "total_tokens"),
            reasoning_tokens: number_at(u, "reasoning_tokens"),
        };
        let window: Option<usize> = match number_at(Some(&msg.payload), "context_window") {
            Some(n) => Some(n as usize),
            None => None,
        };
        st.conv.record_usage(usage, window);
        if let Some(n) = usage.input_tokens {
            let fired = st.conv.check_context_reminders(n);
        }
        if let (Some(left), Some(win)) = (st.conv.context_remaining(), st.conv.context_window) {
            if win > 0 && (left as u128) * 5 < win as u128 {
                let mut text = owned("Context nearly full: ");
                text.append(dec_text(left).as_str());
                text.append(" tokens remaining (");
                text.append(percent_left);
                text.append("%). Consider calling restart_from_file with a handoff note.");
                self.say(st, text.as_str(), "Warning", 0);
            }
        }
    }

    /// The timer: queues and shows the wake-ups that are due, and starts a turn for them.
    pub fn on_wake_timer(&self, st: &mut AgentState, now_ms: u64)
        requires
            old(st)@.wf(),
        ensures
            final(st)@ == old(st)@.wake(self, now_ms),
            final(st)@.wf(),
    {
        let fired = st.conv.check_wake_ups(now_ms / 1000);
        let ghost ms = texts(fired@);
        let ghost w = st@;
        assert(ms.len() == fired@.len());
        if fired.len() == 0 {
            return ;
        }
        let mut i: usize = 0;
        while i < fired.len()
            invariant
                i <= fired@.len(),
                ms == texts(fired@),
                st@ == w.show_wake_ups(self, ms, i as int),
            decreases fired.len() - i,
        {
            let mut text = owned("[wake-up] ");
            text.append(fired[i].as_str());
            self.say(st, text.as_str(), "Info", 0);
            i = i + 1;
        }
        proof {
            lemma_show_keeps(w, self, ms, ms.len() as int);
        }
        self.advance_turn_if_resolved(st, now_ms);
    }
}

proof fn lemma_add_users_keeps(w: AgentV, ms: Seq<Seq<char>>, n: int)
    ensures
        w.add_users(ms, n).stack == w.stack,
        w.add_users(ms, n).conv.depth == w.conv.depth,
    decreases n,
{
    if n > 0 {
        lemma_add_users_keeps(w, ms, n - 1);
    }
}

proof fn lemma_deliver_stack(w: AgentV, a: &AgentActor, ms: Seq<Seq<char>>, n: int)
    ensures
        w.deliver(a, ms, n).stack == w.stack,
        w.deliver(a, ms, n).conv.depth == w.conv.depth,
    decreases n,
{
    if n > 0 {
        lemma_deliver_stack(w, a, ms, n - 1);
    }
}

proof fn lemma_show_keeps(w: AgentV, a: &AgentActor, ms: Seq<Seq<char>>, n: int)
    ensures
        w.show_wake_ups(a, ms, n).stack == w.stack,
        w.show_wake_ups(a, ms, n).conv == w.conv,
    decreases n,
{
    if n > 0 {
        lemma_show_keeps(w, a, ms, n - 1);
    }
}

} // verus!
