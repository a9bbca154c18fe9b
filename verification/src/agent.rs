//! The agent: what it is made of, what it announces, and the effects it asks for.
//!
//! Every event that reaches the agent is handled by a method that takes the agent's
//! state, changes it, and appends the effects that the event calls for. Whoever runs
//! the agent performs the effects in order.

use crate::actor::{push_topic, Actor, ActorAnnouncement, ActorId, AnnouncementV};
use crate::config::{AgentConfig, LlmConfig};
use crate::five_whys::{IncidentReport, ReportV};
use crate::json::{clone_jsons, jsons, Json, JsonV};
use crate::message::{Message, MessageV};
use crate::request::{request_json, LlmRequest, LlmRequestV};
use crate::saved_state::fresh_state;
use crate::state::{ConversationState, StateV};
use crate::text::{dec, dec_text, owned, texts};
use vstd::prelude::*;

verus! {

/// The context of a parent agent, saved while a subagent runs. The number of frames is
/// the depth of the running agent.
#[derive(Debug)]
pub struct SubagentFrame {
    /// The parent's conversation when it called the subagent.
    pub saved_state: ConversationState,
    /// The parent's system message.
    pub saved_system_message: String,
}

/// The model of a [`SubagentFrame`].
pub struct FrameV {
    pub state: StateV,
    pub system: Seq<char>,
}

impl View for SubagentFrame {
    type V = FrameV;

    open spec fn view(&self) -> FrameV {
        FrameV { state: self.saved_state@, system: self.saved_system_message@ }
    }
}

pub open spec fn frames(s: Seq<SubagentFrame>) -> Seq<FrameV> {
    s.map_values(|f: SubagentFrame| f@)
}

/// Something for the runtime to do.
#[derive(Debug)]
pub enum Effect {
    /// Publish a message on the bus.
    Publish(Message),
    /// Publish a request to the model; try again when that fails.
    Request(Message),
    /// Write a file, in a directory that may have to be made first.
    SaveFile { path: String, text: String },
    /// Ask the model on its own what to do about a stuck conversation.
    Triage { reason: String, prompt: String },
    /// Analyse an incident in the background.
    Analyze(IncidentReport),
}

/// The model of an [`Effect`].
pub enum EffectV {
    Publish(MessageV),
    Request(MessageV),
    SaveFile { path: Seq<char>, text: Seq<char> },
    Triage { reason: Seq<char>, prompt: Seq<char> },
    Analyze(ReportV),
}

impl View for Effect {
    type V = EffectV;

    open spec fn view(&self) -> EffectV {
        match self {
            Effect::Publish(m) => EffectV::Publish(m@),
            Effect::Request(m) => EffectV::Request(m@),
            Effect::SaveFile { path, text } => EffectV::SaveFile { path: path@, text: text@ },
            Effect::Triage { reason, prompt } => EffectV::Triage {
                reason: reason@,
                prompt: prompt@,
            },
            Effect::Analyze(r) => EffectV::Analyze(r@),
        }
    }
}

pub open spec fn effects(s: Seq<Effect>) -> Seq<EffectV> {
    s.map_values(|e: Effect| e@)
}

/// The state of an agent: its conversation, the parents that wait for it, and the
/// effects that it has asked for.
#[derive(Debug)]
pub struct AgentState {
    pub conv: ConversationState,
    pub stack: Vec<SubagentFrame>,
    pub effects: Vec<Effect>,
}

/// The model of an [`AgentState`].
#[verifier::ext_equal]
pub struct AgentV {
    pub conv: StateV,
    pub stack: Seq<FrameV>,
    pub out: Seq<EffectV>,
}

impl View for AgentState {
    type V = AgentV;

    open spec fn view(&self) -> AgentV {
        AgentV {
            conv: self.conv@,
            stack: frames(self.stack@),
            out: effects(self.effects@),
        }
    }
}

impl AgentV {
    /// Whether the depth of every conversation is the number of parents that wait for it.
    pub open spec fn wf(self) -> bool {
        &&& self.conv.depth == self.stack.len()
        &&& forall|i: int|
            0 <= i < self.stack.len() ==> (#[trigger] self.stack[i]).state.depth == i
    }

    pub open spec fn emit(self, e: EffectV) -> AgentV {
        AgentV { out: self.out.push(e), ..self }
    }

    pub open spec fn with_conv(self, conv: StateV) -> AgentV {
        AgentV { conv, ..self }
    }
}

impl AgentState {
    /// The state of an agent that has seen nothing yet. The context window is the one
    /// that was found at startup.
    pub fn new(context_window: Option<usize>) -> (r: AgentState)
        ensures
            r@ == (AgentV {
                conv: StateV { context_window, ..fresh_state() },
                stack: Seq::empty(),
                out: Seq::empty(),
            }),
            r@.wf(),
            r@.conv.idle(),
    {
        let mut conv = ConversationState::new();
        conv.context_window = context_window;
        let r = AgentState { conv, stack: Vec::new(), effects: Vec::new() };
        assert(frames(r.stack@) =~= Seq::empty());
        assert(effects(r.effects@) =~= Seq::empty());
        r
    }

    /// Takes the effects that were asked for.
    pub fn take_effects(&mut self) -> (r: Vec<Effect>)
        ensures
            effects(r@) == old(self)@.out,
            final(self)@ == (AgentV { out: Seq::empty(), ..old(self)@ }),
    {
        let mut out: Vec<Effect> = Vec::new();
        std::mem::swap(&mut out, &mut self.effects);
        assert(effects(self.effects@) =~= Seq::empty());
        out
    }

    /// Asks for an effect.
    pub fn emit(&mut self, e: Effect)
        ensures
            final(self)@ == old(self)@.emit(e@),
            final(self).effects@ == old(self).effects@.push(e),
    {
        let ghost before = self.effects@;
        self.effects.push(e);
        assert(effects(self.effects@) =~= effects(before).push(e@));
    }
}

/// The agent's settings.
#[derive(Debug)]
pub struct AgentActor {
    pub index: usize,
    pub input_topic: String,
    pub llm_in_topic: String,
    pub llm_out_topic: String,
    pub llm_stream_topic: String,
    pub llm_tool_calls_topic: String,
    pub tool_results_topic: String,
    pub stream_output_topic: String,
    pub config: AgentConfig,
    pub max_iterations: u32,
    pub system_message: String,
    pub tool_defs: Vec<Json>,
    pub tool_timeout_secs: u64,
    pub state_control_topic: String,
    pub state_topic: String,
    /// Where usage statistics arrive; empty for none.
    pub llm_stats_topic: String,
    /// The context window that was found at startup.
    pub context_window: Option<usize>,
    /// How to reach the model for triage; none switches triage off.
    pub llm_config: Option<LlmConfig>,
}

impl Default for AgentActor {
    fn default() -> (r: AgentActor)
        ensures
            r.index == 0,
            r.max_iterations == 200,
            r.tool_timeout_secs == 300,
            r.tool_defs@.len() == 0,
            r.context_window is None,
            r.llm_config is None,
            r.system_message@.len() == 0,
            r.input_topic@.len() == 0,
            r.llm_in_topic@.len() == 0,
            r.llm_out_topic@.len() == 0,
            r.llm_stream_topic@.len() == 0,
            r.llm_tool_calls_topic@.len() == 0,
            r.tool_results_topic@.len() == 0,
            r.stream_output_topic@.len() == 0,
            r.state_control_topic@.len() == 0,
            r.state_topic@.len() == 0,
            r.llm_stats_topic@.len() == 0,
            call_ensures(AgentConfig::default, (), r.config),
    {
        AgentActor {
            index: 0,
            input_topic: String::new(),
            llm_in_topic: String::new(),
            llm_out_topic: String::new(),
            llm_stream_topic: String::new(),
            llm_tool_calls_topic: String::new(),
            tool_results_topic: String::new(),
            stream_output_topic: String::new(),
            config: AgentConfig::default(),
            max_iterations: 200,
            system_message: String::new(),
            tool_defs: Vec::new(),
            tool_timeout_secs: 300,
            state_control_topic: String::new(),
            state_topic: String::new(),
            llm_stats_topic: String::new(),
            context_window: None,
            llm_config: None,
        }
    }
}

impl AgentActor {
    /// An agent on the given topics; the limits and the system message come from the
    /// configuration.
    pub fn new(
        index: usize,
        input_topic: String,
        llm_in_topic: String,
        llm_out_topic: String,
        llm_stream_topic: String,
        llm_tool_calls_topic: String,
        tool_results_topic: String,
        stream_output_topic: String,
        config: AgentConfig,
    ) -> (r: AgentActor)
        ensures
            r.index == index,
            r.input_topic == input_topic,
            r.llm_in_topic == llm_in_topic,
            r.llm_out_topic == llm_out_topic,
            r.llm_stream_topic == llm_stream_topic,
            r.llm_tool_calls_topic == llm_tool_calls_topic,
            r.tool_results_topic == tool_results_topic,
            r.stream_output_topic == stream_output_topic,
            r.config == config,
            r.max_iterations == config.max_iterations,
            r.system_message@ == config.system_message@,
            r.tool_defs@.len() == 0,
            r.tool_timeout_secs == 300,
            r.state_control_topic@.len() == 0,
            r.state_topic@.len() == 0,
            r.llm_stats_topic@.len() == 0,
            r.context_window is None,
            r.llm_config is None,
    {
        AgentActor {
            index,
            input_topic,
            llm_in_topic,
            llm_out_topic,
            llm_stream_topic,
            llm_tool_calls_topic,
            tool_results_topic,
            stream_output_topic,
            max_iterations: config.max_iterations,
            system_message: config.system_message.clone(),
            config,
            tool_defs: Vec::new(),
            tool_timeout_secs: 300,
            state_control_topic: String::new(),
            state_topic: String::new(),
            llm_stats_topic: String::new(),
            context_window: None,
            llm_config: None,
        }
    }

    pub fn with_max_iterations(self, max: u32) -> (r: AgentActor)
        ensures
            r == (AgentActor { max_iterations: max, ..self }),
    {
        AgentActor { max_iterations: max, ..self }
    }

    pub fn with_system_message(self, msg: String) -> (r: AgentActor)
        ensures
            r == (AgentActor { system_message: msg, ..self }),
    {
        AgentActor { system_message: msg, ..self }
    }

    pub fn with_tool_defs(self, defs: Vec<Json>) -> (r: AgentActor)
        ensures
            r == (AgentActor { tool_defs: defs, ..self }),
    {
        AgentActor { tool_defs: defs, ..self }
    }

    pub fn with_tool_timeout_secs(self, secs: u64) -> (r: AgentActor)
        ensures
            r == (AgentActor { tool_timeout_secs: secs, ..self }),
    {
        AgentActor { tool_timeout_secs: secs, ..self }
    }

    pub fn with_state_topics(self, control: String, state: String) -> (r: AgentActor)
        ensures
            r == (AgentActor { state_control_topic: control, state_topic: state, ..self }),
    {
        AgentActor { state_control_topic: control, state_topic: state, ..self }
    }

    pub fn with_llm_stats_topic(self, topic: String) -> (r: AgentActor)
        ensures
            r == (AgentActor { llm_stats_topic: topic, ..self }),
    {
        AgentActor { llm_stats_topic: topic, ..self }
    }

    pub fn with_context_window(self, window: Option<usize>) -> (r: AgentActor)
        ensures
            r == (AgentActor { context_window: window, ..self }),
    {
        AgentActor { context_window: window, ..self }
    }

    pub fn with_llm_config(self, config: LlmConfig) -> (r: AgentActor)
        ensures
            r == (AgentActor { llm_config: Some(config), ..self }),
    {
        AgentActor { llm_config: Some(config), ..self }
    }

    /// The name under which the agent speaks.
    pub open spec fn name(&self) -> Seq<char> {
        "gladiator-agent-"@ + dec(self.index as int)
    }

    /// A text for the user interface.
    pub open spec fn note(&self, text: Seq<char>, kind: Seq<char>) -> MessageV {
        MessageV::of_text(self.stream_output_topic@, self.name(), text).with_type(kind)
    }
}

/// The message with the depth, unless that is the top level.
pub open spec fn stamped(m: MessageV, depth: usize) -> MessageV {
    if depth > 0 {
        m.with_depth(depth as int)
    } else {
        m
    }
}

/// `s` with the topic, unless that is empty.
pub open spec fn push_nonempty(s: Seq<Seq<char>>, topic: Seq<char>) -> Seq<Seq<char>> {
    if topic.len() == 0 {
        s
    } else {
        s.push(topic)
    }
}

/// What the agent announces.
pub open spec fn agent_announcement(a: &AgentActor) -> AnnouncementV {
    AnnouncementV {
        id: a.name(),
        subscriptions: push_nonempty(
            push_nonempty(
                seq![
                    a.input_topic@,
                    a.llm_out_topic@,
                    a.llm_stream_topic@,
                    a.llm_tool_calls_topic@,
                    a.tool_results_topic@,
                ],
                a.state_control_topic@,
            ),
            a.llm_stats_topic@,
        ),
        publications: push_nonempty(
            seq![a.stream_output_topic@, a.llm_in_topic@],
            a.state_topic@,
        ),
    }
}

impl Actor for AgentActor {
    fn id(&self) -> (r: ActorId)
        ensures
            r@ == self.name(),
    {
        let mut out = owned("gladiator-agent-");
        out.append(dec_text(self.index as u64).as_str());
        out
    }

    fn announce(&self) -> (r: ActorAnnouncement)
        ensures
            r@ == agent_announcement(self),
    {
        let mut subs: Vec<String> = Vec::new();
        assert(texts(subs@) =~= Seq::empty());
        push_topic(&mut subs, self.input_topic.as_str());
        push_topic(&mut subs, self.llm_out_topic.as_str());
        push_topic(&mut subs, self.llm_stream_topic.as_str());
        push_topic(&mut subs, self.llm_tool_calls_topic.as_str());
        push_topic(&mut subs, self.tool_results_topic.as_str());
        assert(texts(subs@) =~= seq![
            self.input_topic@,
            self.llm_out_topic@,
            self.llm_stream_topic@,
            self.llm_tool_calls_topic@,
            self.tool_results_topic@,
        ]);
        let mut pubs: Vec<String> = Vec::new();
        assert(texts(pubs@) =~= Seq::empty());
        push_topic(&mut pubs, self.stream_output_topic.as_str());
        push_topic(&mut pubs, self.llm_in_topic.as_str());
        assert(texts(pubs@) =~= seq![self.stream_output_topic@, self.llm_in_topic@]);
        if !self.state_control_topic.as_str().is_empty() {
            push_topic(&mut subs, self.state_control_topic.as_str());
        }
        if !self.llm_stats_topic.as_str().is_empty() {
            push_topic(&mut subs, self.llm_stats_topic.as_str());
        }
        if !self.state_topic.as_str().is_empty() {
            push_topic(&mut pubs, self.state_topic.as_str());
        }
        ActorAnnouncement { id: self.id(), subscriptions: subs, publications: pubs }
    }
}

/// The request that carries a conversation.
pub open spec fn conversation_request(a: &AgentActor, messages: Seq<JsonV>) -> LlmRequestV {
    LlmRequestV {
        messages: Some(messages),
        prompt: Seq::empty(),
        config: None,
        tools: if a.tool_defs@.len() == 0 {
            None
        } else {
            Some(jsons(a.tool_defs@))
        },
        grammar: None,
    }
}

impl AgentV {
    /// Says something to the user interface, at the given depth.
    pub open spec fn say(
        self,
        a: &AgentActor,
        text: Seq<char>,
        kind: Seq<char>,
        depth: usize,
    ) -> AgentV {
        self.emit(EffectV::Publish(stamped(a.note(text, kind), depth)))
    }

    /// Sends a conversation to the model.
    pub open spec fn send(self, a: &AgentActor, messages: Seq<JsonV>) -> AgentV {
        self.say(a, "request_sent"@, "LlmRequestSent"@, 0).emit(
            EffectV::Request(
                MessageV::new(
                    a.llm_in_topic@,
                    a.name(),
                    request_json(conversation_request(a, messages)),
                ),
            ),
        )
    }

    /// The system message of the running agent: its own, or that of the settings.
    pub open spec fn system(self, a: &AgentActor) -> Seq<char> {
        match self.conv.active_system {
            Some(s) => s,
            None => a.system_message@,
        }
    }

    /// Sends the whole conversation, and marks a request as under way.
    pub open spec fn infer(self, a: &AgentActor) -> AgentV {
        self.with_conv(StateV { in_flight: true, ..self.conv }).send(
            a,
            self.conv.sent_with(self.system(a)),
        )
    }
}

impl AgentActor {
    /// Stamps the depth on a message, unless that is the top level.
    pub fn stamp_depth(&self, msg: Message, depth: usize) -> (r: Message)
        ensures
            r@ == stamped(msg@, depth),
            r.reference == msg.reference,
    {
        if depth > 0 {
            msg.with_depth(depth)
        } else {
            msg
        }
    }

    /// Says something to the user interface, at the given depth.
    pub fn say(&self, st: &mut AgentState, text: &str, kind: &str, depth: usize)
        ensures
            final(st)@ == old(st)@.say(self, text@, kind@, depth),
    {
        let msg = Message::text(
            self.stream_output_topic.as_str(),
            self.id().as_str(),
            text,
        ).with_type(kind);
        st.emit(Effect::Publish(self.stamp_depth(msg, depth)));
    }

    /// Sends a conversation to the model: the user interface learns that a request goes
    /// out, then the request is published.
    pub fn send_conversation(&self, st: &mut AgentState, messages: Vec<Json>)
        ensures
            final(st)@ == old(st)@.send(self, jsons(messages@)),
    {
        self.say(st, "request_sent", "LlmRequestSent", 0);
        let request = LlmRequest {
            messages: Some(messages),
            prompt: String::new(),
            config: None,
            tools: if self.tool_defs.len() == 0 {
                None
            } else {
                Some(clone_jsons(&self.tool_defs))
            },
            grammar: None,
        };
        assert(request@ == conversation_request(self, jsons(messages@)));
        let msg = Message::new(self.llm_in_topic.as_str(), self.id().as_str(), request.to_json());
        st.emit(Effect::Request(msg));
    }

    /// Sends the whole conversation, and marks a request as under way.
    pub fn infer(&self, st: &mut AgentState)
        ensures
            final(st)@ == old(st)@.infer(self),
    {
        let messages = match &st.conv.active_system_message {
            Some(s) => st.conv.build_messages_with_system(s.as_str()),
            None => st.conv.build_messages_with_system(self.system_message.as_str()),
        };
        st.conv.inference_in_flight = true;
        self.send_conversation(st, messages);
    }
}

/// What to do after an attempt to publish a request.
#[derive(Debug, Clone, Copy, PartialEq, Eq, Structural)]
pub enum PublishStep {
    Done,
    /// Wait this many milliseconds and try again.
    Retry(u64),
    GiveUp,
}

/// What to do after attempt number `attempt`, counted from 0: a failed one is repeated
/// three times, a second apart.
pub fn after_publish(attempt: u32, published: bool) -> (r: PublishStep)
    ensures
        published ==> r == PublishStep::Done,
        !published && attempt < 3 ==> r == PublishStep::Retry(1000),
        !published && attempt >= 3 ==> r == PublishStep::GiveUp,
{
    if published {
        PublishStep::Done
    } else if attempt < 3 {
        PublishStep::Retry(1000)
    } else {
        PublishStep::GiveUp
    }
}

} // verus!
