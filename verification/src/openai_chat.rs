//! The chat-completions protocol: the body of a request, and the events of a stream.

use crate::event::{events, push_event, EventV, LlmEvent, Usage};
use crate::json::{fields, jsons, obj1, obj1_v, object_of, push_field, Json, JsonV};
use crate::json::clone_jsons;
use crate::lifecycle::{LifecycleState, LifecycleV, StreamLifecycle};
use crate::request::{int_json, CanonicalRequest, CanonicalV};
use crate::text::{opt_text, owned, to_chars};
use crate::tool_stream::{appended, call_at, calls, AccumulatorV, ToolStream};
use vstd::prelude::*;

verus! {

/// What a stream has brought so far.
#[derive(Debug)]
pub struct StreamState {
    pub text: String,
    pub reasoning: String,
    /// The tool calls as far as they have come in.
    pub tool_calls: Vec<Json>,
    /// The pieces of the tool calls, by index.
    pub tools: ToolStream,
    pub usage: Option<Usage>,
    pub finish_reason: Option<String>,
}

/// The model of a [`StreamState`].
#[verifier::ext_equal]
pub struct StreamStateV {
    pub text: Seq<char>,
    pub reasoning: Seq<char>,
    pub tool_calls: Seq<JsonV>,
    pub tools: Seq<(usize, AccumulatorV)>,
    pub usage: Option<Usage>,
    pub finish_reason: Option<Seq<char>>,
}

impl View for StreamState {
    type V = StreamStateV;

    open spec fn view(&self) -> StreamStateV {
        StreamStateV {
            text: self.text@,
            reasoning: self.reasoning@,
            tool_calls: jsons(self.tool_calls@),
            tools: self.tools@,
            usage: self.usage,
            finish_reason: opt_text(self.finish_reason),
        }
    }
}

impl StreamStateV {
    pub open spec fn empty() -> StreamStateV {
        StreamStateV {
            text: Seq::empty(),
            reasoning: Seq::empty(),
            tool_calls: Seq::empty(),
            tools: Seq::empty(),
            usage: None,
            finish_reason: None,
        }
    }
}

impl Default for StreamState {
    fn default() -> (r: StreamState)
        ensures
            r@ == StreamStateV::empty(),
    {
        let r = StreamState {
            text: String::new(),
            reasoning: String::new(),
            tool_calls: Vec::new(),
            tools: ToolStream::new(),
            usage: None,
            finish_reason: None,
        };
        assert(r@ =~= StreamStateV::empty());
        r
    }
}

/// The usage that a chunk reports.
pub open spec fn reported_usage(u: JsonV) -> Usage {
    Usage {
        input_tokens: u.at("prompt_tokens"@).as_u64(),
        output_tokens: u.at("completion_tokens"@).as_u64(),
        total_tokens: u.at("total_tokens"@).as_u64(),
        reasoning_tokens: u.at("completion_tokens_details"@).at("reasoning_tokens"@).as_u64(),
    }
}

/// Where the parsing of a chunk stands.
pub struct ChunkV {
    pub state: StreamStateV,
    pub life: LifecycleV,
    pub events: Seq<EventV>,
}

impl ChunkV {
    pub open spec fn start(state: StreamStateV, usage: Option<JsonV>) -> ChunkV {
        ChunkV {
            state: match usage {
                Some(u) => StreamStateV { usage: Some(reported_usage(u)), ..state },
                None => state,
            },
            life: LifecycleV::new(),
            events: Seq::empty(),
        }
    }

    /// A piece of reasoning, unless it is empty.
    pub open spec fn reasoning(self, t: Option<Seq<char>>) -> ChunkV {
        match t {
            Some(t) => if t.len() > 0 {
                ChunkV {
                    events: self.events + self.life.reasoning_events(t),
                    life: self.life.at(LifecycleState::Reasoning),
                    ..self
                }
            } else {
                self
            },
            None => self,
        }
    }

    /// A piece of text, unless it is empty.
    pub open spec fn text(self, t: Option<Seq<char>>) -> ChunkV {
        match t {
            Some(t) => if t.len() > 0 {
                ChunkV {
                    events: self.events + self.life.text_events(t),
                    life: self.life.at(LifecycleState::Text),
                    ..self
                }
            } else {
                self
            },
            None => self,
        }
    }

    /// A piece of a tool call; one without an index is passed over.
    pub open spec fn tool_piece(self, tc: JsonV) -> ChunkV {
        match tc.at("index"@).as_u64() {
            Some(n) => {
                let index = n as usize;
                let id = tc.str_or("id"@, ""@);
                let name = tc.at("function"@).str_or("name"@, ""@);
                let args = tc.at("function"@).str_or("arguments"@, ""@);
                let tools = appended(self.state.tools, index, id, name, args);
                ChunkV {
                    state: StreamStateV { tools, ..self.state },
                    events: self.events.push(EventV::ToolInputStart { index, id, name }).push(
                        EventV::ToolInputDelta { index, id, name, text: args },
                    ).push(
                        EventV::ToolInputEnd { index, id, name, input: call_at(tools, index).input },
                    ),
                    ..self
                }
            },
            None => self,
        }
    }

    /// The first `n` pieces of tool calls.
    pub open spec fn tool_pieces(self, a: Seq<JsonV>, n: int) -> ChunkV
        decreases n,
    {
        if n <= 0 {
            self
        } else {
            self.tool_pieces(a, n - 1).tool_piece(a[n - 1])
        }
    }

    /// The pieces of tool calls; they end the reasoning.
    pub open spec fn tool_calls(self, a: Option<Seq<JsonV>>) -> ChunkV {
        match a {
            Some(a) => {
                let c = ChunkV {
                    events: self.events + self.life.reasoning_end_events(),
                    life: self.life.reasoning_ended(),
                    ..self
                };
                let d = c.tool_pieces(a, a.len() as int);
                ChunkV { state: StreamStateV { tool_calls: calls(d.state.tools), ..d.state }, ..d }
            },
            None => self,
        }
    }

    /// What a choice adds to the response.
    pub open spec fn delta(self, d: Option<JsonV>) -> ChunkV {
        match d {
            Some(d) => self.reasoning(d.str_at("reasoning_content"@)).text(
                d.str_at("content"@),
            ).tool_calls(d.at("tool_calls"@).as_array()),
            None => self,
        }
    }

    /// The end of the response, where the choice states a reason for it.
    pub open spec fn finish(self, reason: Option<Seq<char>>) -> ChunkV {
        match reason {
            Some(r) => ChunkV {
                events: self.events + self.life.finish_events(r),
                life: self.life.at(LifecycleState::Idle),
                state: StreamStateV { finish_reason: Some(r), ..self.state },
            },
            None => self,
        }
    }
}

/// The first item of an array.
pub open spec fn first_item(v: JsonV) -> Option<JsonV> {
    match v.as_array() {
        Some(a) => if a.len() > 0 {
            Some(a[0])
        } else {
            None
        },
        None => None,
    }
}

/// What a chunk of the stream adds to the state, and its events.
pub open spec fn parsed_chunk(raw: JsonV, state: StreamStateV) -> ChunkV {
    let c = ChunkV::start(state, raw.get("usage"@));
    match first_item(raw.at("choices"@)) {
        Some(choice) => c.delta(choice.get("delta"@)).finish(choice.str_at("finish_reason"@)),
        None => c,
    }
}

/// The body of a request. It always asks for a stream, and for the usage at its end.
pub open spec fn chat_body(r: CanonicalV) -> JsonV {
    JsonV::Object(
        seq![
            ("model"@, JsonV::Str(r.model)),
            ("messages"@, JsonV::Array(r.messages)),
            (
                "temperature"@,
                match r.temperature {
                    Some(t) => JsonV::Float(t),
                    None => JsonV::Null,
                },
            ),
            (
                "max_tokens"@,
                match r.max_tokens {
                    Some(n) => JsonV::Int(n as int),
                    None => JsonV::Null,
                },
            ),
            ("stream"@, JsonV::Bool(true)),
            ("stream_options"@, obj1_v("include_usage"@, JsonV::Bool(true))),
        ] + (match r.tools {
            Some(t) => seq![("tools"@, JsonV::Array(t))],
            None => Seq::empty(),
        }) + (match r.grammar {
            Some(g) => seq![("grammar"@, JsonV::Str(g))],
            None => Seq::empty(),
        }),
    )
}

/// How requests are written and streams are read.
pub trait Protocol {
    /// The name of the protocol.
    spec fn name(&self) -> Seq<char>;

    /// The body of a request.
    spec fn body_of(&self, request: CanonicalV) -> JsonV;

    /// What a chunk does to the state.
    spec fn state_after(&self, raw: JsonV, state: StreamStateV) -> StreamStateV;

    /// The events of a chunk.
    spec fn events_in(&self, raw: JsonV, state: StreamStateV) -> Seq<EventV>;

    fn id(&self) -> (r: &str)
        ensures
            r@ == self.name(),
    ;

    fn build_body(&self, request: &CanonicalRequest) -> (r: Json)
        ensures
            r@ == self.body_of(request@),
    ;

    fn parse_event(&self, raw: &Json, state: &mut StreamState) -> (r: Vec<LlmEvent>)
        ensures
            final(state)@ == self.state_after(raw@, old(state)@),
            events(r@) == self.events_in(raw@, old(state)@),
    ;

    fn terminal_event(&self, state: &StreamState) -> (r: bool)
        ensures
            r == (state@.finish_reason is Some),
    ;
}

/// The chat-completions protocol.
#[derive(Clone, Copy, Debug)]
pub struct OpenAIChatProtocol;

fn opt_u64(u: &Json, k: &str) -> (r: Option<u64>)
    ensures
        r == u@.at(k@).as_u64(),
{
    match u.get(k) {
        Some(v) => v.as_u64(),
        None => None,
    }
}

fn read_usage(u: &Json) -> (r: Usage)
    ensures
        r == reported_usage(u@),
{
    let reasoning = match u.get("completion_tokens_details") {
        Some(d) => opt_u64(d, "reasoning_tokens"),
        None => None,
    };
    Usage {
        input_tokens: opt_u64(u, "prompt_tokens"),
        output_tokens: opt_u64(u, "completion_tokens"),
        total_tokens: opt_u64(u, "total_tokens"),
        reasoning_tokens: reasoning,
    }
}

/// A text under a key under another key; empty where there is none.
fn text_under(v: &Json, k: &str, k2: &str) -> (r: String)
    ensures
        r@ == v@.at(k@).str_or(k2@, ""@),
{
    match v.get(k) {
        Some(f) => owned(f.str_or(k2, "")),
        None => owned(""),
    }
}

/// A piece of a tool call.
fn take_tool_piece(tc: &Json, state: &mut StreamState, out: &mut Vec<LlmEvent>, Ghost(c): Ghost<ChunkV>)
    requires
        c.state == old(state)@,
        c.events == events(old(out)@),
    ensures
        final(state)@ == c.tool_piece(tc@).state,
        events(final(out)@) == c.tool_piece(tc@).events,
        c.tool_piece(tc@).life == c.life,
{
    if let Some(n) = opt_u64(tc, "index") {
        let index: usize = n as usize;
        let id = owned(tc.str_or("id", ""));
        let name = text_under(tc, "function", "name");
        let args = text_under(tc, "function", "arguments");
        state.tools.append_or_start(index, id.as_str(), name.as_str(), args.as_str());
        let input = state.tools.input_so_far(index);
        push_event(out, LlmEvent::ToolInputStart { index, id: id.clone(), name: name.clone() });
        push_event(
            out,
            LlmEvent::ToolInputDelta { index, id: id.clone(), name: name.clone(), text: args },
        );
        push_event(out, LlmEvent::ToolInputEnd { index, id, name, input });
    }
}

/// The pieces of tool calls.
fn take_tool_pieces(
    a: &Vec<Json>,
    state: &mut StreamState,
    life: &mut StreamLifecycle,
    out: &mut Vec<LlmEvent>,
)
    ensures
        ({
            let c = ChunkV {
                state: old(state)@,
                life: old(life)@,
                events: events(old(out)@),
            }.tool_calls(Some(jsons(a@)));
            final(state)@ == c.state && final(life)@ == c.life && events(final(out)@) == c.events
        }),
{
    let ghost start = ChunkV { state: state@, life: life@, events: events(out@) };
    life.reasoning_end(out);
    let ghost c = ChunkV {
        events: start.events + start.life.reasoning_end_events(),
        life: start.life.reasoning_ended(),
        ..start
    };
    let mut i: usize = 0;
    while i < a.len()
        invariant
            i <= a@.len(),
            state@ == c.tool_pieces(jsons(a@), i as int).state,
            events(out@) == c.tool_pieces(jsons(a@), i as int).events,
            life@ == c.tool_pieces(jsons(a@), i as int).life,
        decreases a.len() - i,
    {
        assert(jsons(a@)[i as int] == a@[i as int]@);
        take_tool_piece(&a[i], state, out, Ghost(c.tool_pieces(jsons(a@), i as int)));
        i = i + 1;
    }
    state.tool_calls = state.tools.finish_all();
}

/// What a choice adds to the response.
fn take_delta(
    d: &Json,
    state: &mut StreamState,
    life: &mut StreamLifecycle,
    out: &mut Vec<LlmEvent>,
)
    ensures
        ({
            let c = ChunkV {
                state: old(state)@,
                life: old(life)@,
                events: events(old(out)@),
            }.delta(Some(d@));
            final(state)@ == c.state && final(life)@ == c.life && events(final(out)@) == c.events
        }),
{
    if let Some(t) = d.str_at("reasoning_content") {
        if to_chars(t).len() > 0 {
            life.reasoning_delta(out, t);
        }
    }
    if let Some(t) = d.str_at("content") {
        if to_chars(t).len() > 0 {
            life.text_delta(out, t);
        }
    }
    if let Some(v) = d.get("tool_calls") {
        if let Some(a) = v.as_array() {
            take_tool_pieces(a, state, life, out);
        }
    }
}

impl Protocol for OpenAIChatProtocol {
    open spec fn name(&self) -> Seq<char> {
        "openai-chat"@
    }

    open spec fn body_of(&self, request: CanonicalV) -> JsonV {
        chat_body(request)
    }

    open spec fn state_after(&self, raw: JsonV, state: StreamStateV) -> StreamStateV {
        parsed_chunk(raw, state).state
    }

    open spec fn events_in(&self, raw: JsonV, state: StreamStateV) -> Seq<EventV> {
        parsed_chunk(raw, state).events
    }

    fn id(&self) -> (r: &str) {
        "openai-chat"
    }

    fn build_body(&self, request: &CanonicalRequest) -> (r: Json) {
        let temperature = match &request.temperature {
            Some(t) => Json::Float(t.clone()),
            None => Json::Null,
        };
        let max_tokens = match request.max_tokens {
            Some(n) => int_json(n as i64),
            None => Json::Null,
        };
        let mut o: Vec<(String, Json)> = Vec::new();
        push_field(&mut o, "model", Json::Str(request.model.clone()));
        push_field(&mut o, "messages", Json::array(clone_jsons(&request.messages)));
        push_field(&mut o, "temperature", temperature);
        push_field(&mut o, "max_tokens", max_tokens);
        push_field(&mut o, "stream", Json::Bool(true));
        push_field(&mut o, "stream_options", obj1("include_usage", Json::Bool(true)));
        if let Some(t) = &request.tools {
            push_field(&mut o, "tools", Json::array(clone_jsons(t)));
        }
        if let Some(g) = &request.grammar {
            push_field(&mut o, "grammar", Json::Str(g.clone()));
        }
        assert(fields(o@) =~= chat_body(request@)->Object_0);
        object_of(o)
    }

    fn parse_event(&self, raw: &Json, state: &mut StreamState) -> (r: Vec<LlmEvent>) {
        let mut out: Vec<LlmEvent> = Vec::new();
        let mut life = StreamLifecycle::new();
        assert(events(out@) =~= Seq::empty());
        if let Some(u) = raw.get("usage") {
            state.usage = Some(read_usage(u));
        }
        let ghost c = ChunkV::start(old(state)@, raw@.get("usage"@));
        assert(state@ =~= c.state);
        let choices = match raw.get("choices") {
            Some(v) => v.as_array(),
            None => None,
        };
        if let Some(a) = choices {
            if a.len() > 0 {
                let choice = &a[0];
                assert(first_item(raw@.at("choices"@)) == Some(choice@));
                if let Some(d) = choice.get("delta") {
                    take_delta(d, state, &mut life, &mut out);
                }
                if let Some(reason) = choice.str_at("finish_reason") {
                    life.finish(&mut out, reason);
                    state.finish_reason = Some(owned(reason));
                }
            }
        }
        out
    }

    fn terminal_event(&self, state: &StreamState) -> (r: bool) {
        state.finish_reason.is_some()
    }
}

} // verus!
