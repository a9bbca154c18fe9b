//! The actor that speaks to the model: it takes requests from the bus, has them sent, and
//! publishes what came back.

use crate::actor::{push_topic, Actor, ActorAnnouncement, ActorId, AnnouncementV};
use crate::args_fixer::{repair_tool_calls, repaired_call};
use crate::config::{LlmConfig, LlmConfigV};
use crate::endpoint::{rooted, without_slashes};
use crate::generate_object::GenerateObject;
use crate::json::{clone_jsons, jsons, obj3_v, Json, JsonV};
use crate::llm_stream::{OutcomeV, StreamLink, StreamOutcome, StreamSignal, LinkV};
use crate::message::{Message, MessageV};
use crate::openai_chat::chat_body;
use crate::provider::{effective_config, headers, merge_config, ProviderConfig};
use crate::request::{clone_opt_jsons, effective_messages, messages_of, opt_jsons};
use crate::request::{CanonicalRequest, CanonicalV, LlmRequest};
use crate::schema::tool_choice_v;
use crate::text::{dec, dec_text, opt_str, owned, same, texts, to_chars};
use crate::transport::PreparedRequest;
use vstd::prelude::*;

verus! {

/// The actor that speaks to the model.
#[derive(Debug)]
pub struct LlmActor {
    pub index: usize,
    pub input_topic: String,
    pub output_topic: String,
    pub stream_topic: String,
    pub stats_topic: String,
    pub tool_calls_topic: String,
    pub control_topic: String,
    pub config: LlmConfig,
}

/// The canonical request for messages, tools and a grammar.
pub open spec fn canonical_for(
    config: LlmConfigV,
    messages: Seq<JsonV>,
    tools: Option<Seq<JsonV>>,
    grammar: Option<Seq<char>>,
) -> CanonicalV {
    CanonicalV {
        model: config.model,
        messages,
        tools,
        tool_choice: None,
        temperature: Some(config.temperature),
        max_tokens: Some(config.max_tokens),
        stream: true,
        grammar,
    }
}

/// The models of optional values behind a reference.
pub open spec fn opt_values(v: Option<&Vec<Json>>) -> Option<Seq<JsonV>> {
    match v {
        Some(a) => Some(jsons(a@)),
        None => None,
    }
}

fn canonical(
    config: &LlmConfig,
    messages: &Vec<Json>,
    tools: Option<&Vec<Json>>,
    grammar: Option<&str>,
) -> (r: CanonicalRequest)
    ensures
        r@ == canonical_for(config@, jsons(messages@), opt_values(tools), opt_str(grammar)),
{
    CanonicalRequest {
        model: config.model.clone(),
        messages: clone_jsons(messages),
        tools: match tools {
            Some(t) => Some(clone_jsons(t)),
            None => None,
        },
        tool_choice: None,
        temperature: Some(config.temperature.clone()),
        max_tokens: Some(config.max_tokens),
        stream: true,
        grammar: match grammar {
            Some(g) => Some(owned(g)),
            None => None,
        },
    }
}

/// A request that is ready to be sent, with what its response will be read by.
#[derive(Debug)]
pub struct LlmCall {
    pub config: LlmConfig,
    pub request: PreparedRequest,
    pub tools: Option<Vec<Json>>,
}

/// Whether a prepared request is the one for a configuration and a canonical request.
pub open spec fn is_sent_as(p: PreparedRequest, config: LlmConfigV, c: CanonicalV) -> bool {
    &&& p.url@ == without_slashes(config.base_url) + rooted("/chat/completions"@)
    &&& p.body@ == chat_body(c)
    &&& headers(p.headers@) == seq![
        ("Content-Type"@, "application/json"@),
        ("Authorization"@, "Bearer "@ + config.api_key),
    ]
}

/// The reason that an interrupt gives.
pub open spec fn interrupt_reason(payload: JsonV) -> Option<Seq<char>> {
    if payload.str_at("type"@) == Some("interrupt"@) {
        Some(payload.str_or("reason"@, "interrupted"@))
    } else {
        None
    }
}

impl LlmActor {
    /// The actor's name.
    pub open spec fn name(&self) -> Seq<char> {
        "gladiator-llm-"@ + dec(self.index as int)
    }

    pub fn new(
        index: usize,
        input_topic: String,
        output_topic: String,
        stream_topic: String,
        stats_topic: String,
        tool_calls_topic: String,
        control_topic: String,
        config: LlmConfig,
    ) -> (r: LlmActor)
        ensures
            r == (LlmActor {
                index,
                input_topic,
                output_topic,
                stream_topic,
                stats_topic,
                tool_calls_topic,
                control_topic,
                config,
            }),
    {
        LlmActor {
            index,
            input_topic,
            output_topic,
            stream_topic,
            stats_topic,
            tool_calls_topic,
            control_topic,
            config,
        }
    }

    /// The body of a request.
    pub fn build_request_body(
        &self,
        config: &LlmConfig,
        messages: &Vec<Json>,
        tools: Option<&Vec<Json>>,
        grammar: Option<&str>,
    ) -> (r: Json)
        ensures
            r@ == chat_body(
                canonical_for(config@, jsons(messages@), opt_values(tools), opt_str(grammar)),
            ),
    {
        let c = canonical(config, messages, tools, grammar);
        let provider = ProviderConfig::new(
            "openai",
            config.base_url.as_str(),
            config.api_key.as_str(),
        );
        provider.openai_chat_route().build_body(&c)
    }

    /// The request for messages, tools and a grammar, as it is sent. It needs a model.
    pub fn prepare(
        &self,
        config: &LlmConfig,
        messages: &Vec<Json>,
        tools: Option<&Vec<Json>>,
        grammar: Option<&str>,
    ) -> (r: Result<PreparedRequest, String>)
        ensures
            match r {
                Ok(p) => config@.model.len() > 0 && is_sent_as(
                    p,
                    config@,
                    canonical_for(config@, jsons(messages@), opt_values(tools), opt_str(grammar)),
                ),
                Err(e) => config@.model.len() == 0 && e@ == "LLM model name is empty"@,
            },
    {
        if to_chars(config.model.as_str()).len() == 0 {
            return Err(owned("LLM model name is empty"));
        }
        let c = canonical(config, messages, tools, grammar);
        let provider = ProviderConfig::new(
            "openai",
            config.base_url.as_str(),
            config.api_key.as_str(),
        );
        Ok(provider.openai_chat_route().prepare(&c))
    }

    /// A request from the bus: what is to be sent for it, or the message that refuses it.
    pub fn accept(&self, req: &LlmRequest) -> (r: Result<LlmCall, Message>)
        ensures
            ({
                let config = effective_config(self.config@, req@.config);
                match r {
                    Ok(call) => config.model.len() > 0 && call.config@ == config && opt_jsons(
                        call.tools,
                    ) == req@.tools && is_sent_as(
                        call.request,
                        config,
                        canonical_for(
                            config,
                            effective_messages(req@),
                            req@.tools,
                            req@.grammar,
                        ),
                    ),
                    Err(m) => config.model.len() == 0 && m@ == self.failure(
                        "LLM model name is empty"@,
                    ),
                }
            }),
    {
        let config = merge_config(&self.config, req.config.as_ref());
        let messages = messages_of(req);
        let grammar = match &req.grammar {
            Some(g) => Some(g.as_str()),
            None => None,
        };
        let tools = clone_opt_jsons(&req.tools);
        match self.prepare(&config, &messages, tools.as_ref(), grammar) {
            Ok(request) => Ok(LlmCall { config, request, tools }),
            Err(e) => Err(self.failure_message(e.as_str())),
        }
    }

    /// Where the messages of a response go.
    pub fn link(&self, config: &LlmConfig, stream_id: String) -> (r: StreamLink)
        ensures
            r@ == (LinkV {
                stream_topic: self.stream_topic@,
                stats_topic: self.stats_topic@,
                source: self.name(),
                stream_id: stream_id@,
                context_window: config.context_window,
            }),
    {
        StreamLink {
            stream_topic: self.stream_topic.clone(),
            stats_topic: self.stats_topic.clone(),
            source: self.id(),
            stream_id,
            context_window: config.context_window,
        }
    }

    /// What a failed request is reported as.
    pub open spec fn failure(&self, e: Seq<char>) -> MessageV {
        MessageV::of_text(self.output_topic@, self.name(), "Error: "@ + e).with_type("LlmError"@)
    }

    /// What a failed request is reported as.
    pub fn failure_message(&self, e: &str) -> (r: Message)
        ensures
            r@ == self.failure(e@),
    {
        let mut text = owned("Error: ");
        text.append(e);
        Message::text(self.output_topic.as_str(), self.id().as_str(), text.as_str()).with_type(
            "LlmError",
        )
    }

    /// What a response is reported as: tool calls where there are any, with their arguments
    /// repaired; else the text, marked where the model went idle or in circles.
    pub open spec fn outcome(&self, o: OutcomeV) -> MessageV {
        if o.tool_calls.len() > 0 {
            MessageV::new(
                self.tool_calls_topic@,
                self.name(),
                JsonV::Array(o.tool_calls.map_values(|tc: JsonV| repaired_call(tc))),
            ).with_type("LlmToolCalls"@)
        } else {
            let m = MessageV::of_text(self.output_topic@, self.name(), o.payload);
            match o.signal {
                StreamSignal::Normal => m,
                StreamSignal::Idle => m.with_type("LlmIdleTimeout"@),
                StreamSignal::StuckLoop => m.with_type("LlmStuckLoop"@),
            }
        }
    }

    /// What a response is reported as.
    pub fn outcome_message(&self, o: StreamOutcome) -> (r: Message)
        ensures
            r@ == self.outcome(o@),
    {
        let StreamOutcome { payload, tool_calls, signal } = o;
        let mut tool_calls = tool_calls;
        if tool_calls.len() > 0 {
            repair_tool_calls(&mut tool_calls);
            return Message::new(
                self.tool_calls_topic.as_str(),
                self.id().as_str(),
                Json::array(tool_calls),
            ).with_type("LlmToolCalls");
        }
        let m = Message::text(self.output_topic.as_str(), self.id().as_str(), payload.as_str());
        match signal {
            StreamSignal::Normal => m,
            StreamSignal::Idle => m.with_type("LlmIdleTimeout"),
            StreamSignal::StuckLoop => m.with_type("LlmStuckLoop"),
        }
    }

    /// A control message: where it interrupts, what that is answered with. A request that is
    /// running is then to be given up.
    pub fn on_control(&self, payload: &Json) -> (r: Option<Message>)
        ensures
            match r {
                Some(m) => interrupt_reason(payload@) is Some && m@ == MessageV::of_text(
                    self.output_topic@,
                    self.name(),
                    "Interrupted: "@ + interrupt_reason(payload@).unwrap(),
                ),
                None => interrupt_reason(payload@) is None,
            },
    {
        match payload.str_at("type") {
            Some(t) => if same(t, "interrupt") {
                let mut text = owned("Interrupted: ");
                text.append(payload.str_or("reason", "interrupted"));
                Some(
                    Message::text(
                        self.output_topic.as_str(),
                        self.id().as_str(),
                        text.as_str(),
                    ),
                )
            } else {
                None
            },
            None => None,
        }
    }

    /// The request for an object with the given properties.
    pub fn object_request(
        &self,
        config: &LlmConfig,
        messages: &Vec<Json>,
        wanted: &GenerateObject,
    ) -> (r: CanonicalRequest)
        ensures
            r@ == (CanonicalV {
                tool_choice: Some(tool_choice_v("generate_object"@)),
                ..canonical_for(
                    config@,
                    jsons(messages@),
                    Some(
                        seq![
                            obj3_v(
                                "name"@,
                                JsonV::Str("generate_object"@),
                                "description"@,
                                JsonV::Str("Return the structured result by calling this tool."@),
                                "parameters"@,
                                obj3_v(
                                    "type"@,
                                    JsonV::Str("object"@),
                                    "properties"@,
                                    wanted.schema@,
                                    "required"@,
                                    JsonV::Array(Seq::empty()),
                                ),
                            ),
                        ],
                    ),
                    None,
                )
            }),
    {
        let tools: Vec<Json> = vec![wanted.tool_definition().to_json()];
        assert(jsons(tools@) =~= seq![tools@[0]@]);
        let mut c = canonical(config, messages, Some(&tools), None);
        c.tool_choice = Some(wanted.force_tool_choice());
        c
    }
}

/// What the actor announces.
pub open spec fn llm_announcement(a: &LlmActor) -> AnnouncementV {
    AnnouncementV {
        id: a.name(),
        subscriptions: seq![a.input_topic@, a.control_topic@],
        publications: seq![
            a.output_topic@,
            a.stream_topic@,
            a.stats_topic@,
            a.tool_calls_topic@,
        ],
    }
}

impl Actor for LlmActor {
    fn id(&self) -> (r: ActorId)
        ensures
            r@ == self.name(),
    {
        let mut out = owned("gladiator-llm-");
        out.append(dec_text(self.index as u64).as_str());
        out
    }

    fn announce(&self) -> (r: ActorAnnouncement)
        ensures
            r@ == llm_announcement(self),
    {
        let mut subs: Vec<String> = Vec::new();
        assert(texts(subs@) =~= Seq::empty());
        push_topic(&mut subs, self.input_topic.as_str());
        push_topic(&mut subs, self.control_topic.as_str());
        assert(texts(subs@) =~= seq![self.input_topic@, self.control_topic@]);
        let mut pubs: Vec<String> = Vec::new();
        assert(texts(pubs@) =~= Seq::empty());
        push_topic(&mut pubs, self.output_topic.as_str());
        push_topic(&mut pubs, self.stream_topic.as_str());
        push_topic(&mut pubs, self.stats_topic.as_str());
        push_topic(&mut pubs, self.tool_calls_topic.as_str());
        assert(texts(pubs@) =~= seq![
            self.output_topic@,
            self.stream_topic@,
            self.stats_topic@,
            self.tool_calls_topic@,
        ]);
        ActorAnnouncement { id: self.id(), subscriptions: subs, publications: pubs }
    }
}

/// Tool calls that a response brings are always reported as such, whatever the signal.
pub proof fn lemma_tool_calls_come_first(a: &LlmActor, o: OutcomeV, signal: StreamSignal)
    requires
        o.tool_calls.len() > 0,
    ensures
        a.outcome(o).topic == a.tool_calls_topic@,
        a.outcome(OutcomeV { signal, ..o }) == a.outcome(o),
{
}

} // verus!
