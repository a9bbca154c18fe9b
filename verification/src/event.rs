//! What happens while a model's response streams in.

use crate::json::{fields, jsons, obj3, obj3_v, object_of, push_field, Json, JsonV};
use crate::text::opt_text;
use vstd::prelude::*;

verus! {

/// Token usage of one turn, as the model reported it.
#[derive(Debug, Clone, Copy, PartialEq, Eq)]
pub struct Usage {
    pub input_tokens: Option<u64>,
    pub output_tokens: Option<u64>,
    pub total_tokens: Option<u64>,
    pub reasoning_tokens: Option<u64>,
}

/// One event of a stream. The events of a tool call carry its index in the turn.
#[derive(Debug)]
#[allow(inconsistent_fields)]
pub enum LlmEvent {
    TextStart { id: String },
    TextDelta { id: String, text: String },
    TextEnd { id: String },
    ReasoningStart { id: String },
    ReasoningDelta { id: String, text: String },
    ReasoningEnd { id: String },
    ToolInputStart { index: usize, id: String, name: String },
    ToolInputDelta { index: usize, id: String, name: String, text: String },
    ToolInputEnd { index: usize, id: String, name: String, input: String },
    ToolCall { id: String, name: String, input: Json },
    Finish { reason: String, usage: Option<Usage> },
    ProviderError { message: String, retryable: Option<bool> },
}

/// The model of an [`LlmEvent`].
#[allow(inconsistent_fields)]
pub enum EventV {
    TextStart { id: Seq<char> },
    TextDelta { id: Seq<char>, text: Seq<char> },
    TextEnd { id: Seq<char> },
    ReasoningStart { id: Seq<char> },
    ReasoningDelta { id: Seq<char>, text: Seq<char> },
    ReasoningEnd { id: Seq<char> },
    ToolInputStart { index: usize, id: Seq<char>, name: Seq<char> },
    ToolInputDelta { index: usize, id: Seq<char>, name: Seq<char>, text: Seq<char> },
    ToolInputEnd { index: usize, id: Seq<char>, name: Seq<char>, input: Seq<char> },
    ToolCall { id: Seq<char>, name: Seq<char>, input: JsonV },
    Finish { reason: Seq<char>, usage: Option<Usage> },
    ProviderError { message: Seq<char>, retryable: Option<bool> },
}

impl View for LlmEvent {
    type V = EventV;

    open spec fn view(&self) -> EventV {
        match self {
            LlmEvent::TextStart { id } => EventV::TextStart { id: id@ },
            LlmEvent::TextDelta { id, text } => EventV::TextDelta { id: id@, text: text@ },
            LlmEvent::TextEnd { id } => EventV::TextEnd { id: id@ },
            LlmEvent::ReasoningStart { id } => EventV::ReasoningStart { id: id@ },
            LlmEvent::ReasoningDelta { id, text } => EventV::ReasoningDelta {
                id: id@,
                text: text@,
            },
            LlmEvent::ReasoningEnd { id } => EventV::ReasoningEnd { id: id@ },
            LlmEvent::ToolInputStart { index, id, name } => EventV::ToolInputStart {
                index: *index,
                id: id@,
                name: name@,
            },
            LlmEvent::ToolInputDelta { index, id, name, text } => EventV::ToolInputDelta {
                index: *index,
                id: id@,
                name: name@,
                text: text@,
            },
            LlmEvent::ToolInputEnd { index, id, name, input } => EventV::ToolInputEnd {
                index: *index,
                id: id@,
                name: name@,
                input: input@,
            },
            LlmEvent::ToolCall { id, name, input } => EventV::ToolCall {
                id: id@,
                name: name@,
                input: input@,
            },
            LlmEvent::Finish { reason, usage } => EventV::Finish { reason: reason@, usage: *usage },
            LlmEvent::ProviderError { message, retryable } => EventV::ProviderError {
                message: message@,
                retryable: *retryable,
            },
        }
    }
}

/// The models of the events of `s`.
pub open spec fn events(s: Seq<LlmEvent>) -> Seq<EventV> {
    s.map_values(|e: LlmEvent| e@)
}

/// Appends an event.
pub fn push_event(out: &mut Vec<LlmEvent>, e: LlmEvent)
    ensures
        events(final(out)@) == events(old(out)@).push(e@),
{
    let ghost before = out@;
    out.push(e);
    assert(events(out@) =~= events(before).push(e@));
}

impl Clone for LlmEvent {
    fn clone(&self) -> (r: LlmEvent)
        ensures
            r@ == self@,
    {
        match self {
            LlmEvent::TextStart { id } => LlmEvent::TextStart { id: id.clone() },
            LlmEvent::TextDelta { id, text } => LlmEvent::TextDelta {
                id: id.clone(),
                text: text.clone(),
            },
            LlmEvent::TextEnd { id } => LlmEvent::TextEnd { id: id.clone() },
            LlmEvent::ReasoningStart { id } => LlmEvent::ReasoningStart { id: id.clone() },
            LlmEvent::ReasoningDelta { id, text } => LlmEvent::ReasoningDelta {
                id: id.clone(),
                text: text.clone(),
            },
            LlmEvent::ReasoningEnd { id } => LlmEvent::ReasoningEnd { id: id.clone() },
            LlmEvent::ToolInputStart { index, id, name } => LlmEvent::ToolInputStart {
                index: *index,
                id: id.clone(),
                name: name.clone(),
            },
            LlmEvent::ToolInputDelta { index, id, name, text } => LlmEvent::ToolInputDelta {
                index: *index,
                id: id.clone(),
                name: name.clone(),
                text: text.clone(),
            },
            LlmEvent::ToolInputEnd { index, id, name, input } => LlmEvent::ToolInputEnd {
                index: *index,
                id: id.clone(),
                name: name.clone(),
                input: input.clone(),
            },
            LlmEvent::ToolCall { id, name, input } => LlmEvent::ToolCall {
                id: id.clone(),
                name: name.clone(),
                input: input.clone(),
            },
            LlmEvent::Finish { reason, usage } => LlmEvent::Finish {
                reason: reason.clone(),
                usage: *usage,
            },
            LlmEvent::ProviderError { message, retryable } => LlmEvent::ProviderError {
                message: message.clone(),
                retryable: *retryable,
            },
        }
    }
}

/// A response as it is put together from events.
#[derive(Debug)]
pub struct LlmResponse {
    pub text: String,
    pub reasoning: String,
    pub tool_calls: Vec<Json>,
    pub events: Vec<LlmEvent>,
    pub usage: Option<Usage>,
    pub finish_reason: Option<String>,
}

/// The model of an [`LlmResponse`].
pub struct ResponseV {
    pub text: Seq<char>,
    pub reasoning: Seq<char>,
    pub tool_calls: Seq<JsonV>,
    pub events: Seq<EventV>,
    pub usage: Option<Usage>,
    pub finish_reason: Option<Seq<char>>,
}

impl View for LlmResponse {
    type V = ResponseV;

    open spec fn view(&self) -> ResponseV {
        ResponseV {
            text: self.text@,
            reasoning: self.reasoning@,
            tool_calls: jsons(self.tool_calls@),
            events: events(self.events@),
            usage: self.usage,
            finish_reason: opt_text(self.finish_reason),
        }
    }
}

impl ResponseV {
    pub open spec fn empty() -> ResponseV {
        ResponseV {
            text: Seq::empty(),
            reasoning: Seq::empty(),
            tool_calls: Seq::empty(),
            events: Seq::empty(),
            usage: None,
            finish_reason: None,
        }
    }

    /// The response after one more event.
    pub open spec fn reduce(self, e: EventV) -> ResponseV {
        let r = ResponseV { events: self.events.push(e), ..self };
        match e {
            EventV::TextDelta { text, .. } => ResponseV { text: r.text + text, ..r },
            EventV::ReasoningDelta { text, .. } => ResponseV { reasoning: r.reasoning + text, ..r },
            EventV::ToolCall { id, name, input } => ResponseV {
                tool_calls: r.tool_calls.push(
                    obj3_v("id"@, JsonV::Str(id), "name"@, JsonV::Str(name), "input"@, input),
                ),
                ..r
            },
            EventV::Finish { reason, usage } => ResponseV {
                finish_reason: Some(reason),
                usage,
                ..r
            },
            _ => r,
        }
    }

    /// The response after several events.
    pub open spec fn reduce_all(self, es: Seq<EventV>) -> ResponseV
        decreases es.len(),
    {
        if es.len() == 0 {
            self
        } else {
            self.reduce_all(es.drop_last()).reduce(es.last())
        }
    }
}

impl Default for LlmResponse {
    fn default() -> (r: LlmResponse)
        ensures
            r@ == ResponseV::empty(),
    {
        let r = LlmResponse {
            text: String::new(),
            reasoning: String::new(),
            tool_calls: Vec::new(),
            events: Vec::new(),
            usage: None,
            finish_reason: None,
        };
        assert(r.text@ =~= Seq::empty());
        assert(r.reasoning@ =~= Seq::empty());
        assert(jsons(r.tool_calls@) =~= Seq::empty());
        assert(events(r.events@) =~= Seq::empty());
        r
    }
}

impl LlmResponse {
    /// Takes in one more event.
    pub fn reduce(&mut self, event: LlmEvent)
        ensures
            final(self)@ == old(self)@.reduce(event@),
    {
        push_event(&mut self.events, event.clone());
        match event {
            LlmEvent::TextDelta { text, .. } => {
                self.text.append(text.as_str());
            },
            LlmEvent::ReasoningDelta { text, .. } => {
                self.reasoning.append(text.as_str());
            },
            LlmEvent::ToolCall { id, name, input } => {
                let ghost before = self.tool_calls@;
                let tc = obj3("id", Json::Str(id), "name", Json::Str(name), "input", input);
                self.tool_calls.push(tc);
                assert(jsons(self.tool_calls@) =~= jsons(before).push(tc@));
            },
            LlmEvent::Finish { reason, usage } => {
                self.finish_reason = Some(reason);
                self.usage = usage;
            },
            _ => {},
        }
    }

    /// Whether the response has come to its end.
    pub fn is_complete(&self) -> (r: bool)
        ensures
            r == (self@.finish_reason is Some),
    {
        self.finish_reason.is_some()
    }
}

/// What a turn received.
#[derive(Debug, Clone, Copy)]
pub struct StreamStats {
    pub rx_chars: usize,
    pub usage: Option<Usage>,
    pub context_window: Option<usize>,
}

/// A number, or null.
pub open spec fn count_json(n: Option<u64>) -> JsonV {
    match n {
        Some(n) => JsonV::Int(n as int),
        None => JsonV::Null,
    }
}

/// Usage as JSON.
pub open spec fn usage_json(u: Usage) -> JsonV {
    JsonV::Object(
        seq![
            ("input_tokens"@, count_json(u.input_tokens)),
            ("output_tokens"@, count_json(u.output_tokens)),
            ("total_tokens"@, count_json(u.total_tokens)),
            ("reasoning_tokens"@, count_json(u.reasoning_tokens)),
        ],
    )
}

/// Statistics as JSON.
pub open spec fn stats_json(s: StreamStats) -> JsonV {
    obj3_v(
        "rx_chars"@,
        JsonV::Int(s.rx_chars as int),
        "usage"@,
        match s.usage {
            Some(u) => usage_json(u),
            None => JsonV::Null,
        },
        "context_window"@,
        match s.context_window {
            Some(w) => JsonV::Int(w as int),
            None => JsonV::Null,
        },
    )
}

fn count_to_json(n: Option<u64>) -> (r: Json)
    ensures
        r@ == count_json(n),
{
    match n {
        Some(n) => Json::UInt(n),
        None => Json::Null,
    }
}

impl Usage {
    /// Usage as JSON.
    pub fn to_json(&self) -> (r: Json)
        ensures
            r@ == usage_json(*self),
    {
        let mut o: Vec<(String, Json)> = Vec::new();
        push_field(&mut o, "input_tokens", count_to_json(self.input_tokens));
        push_field(&mut o, "output_tokens", count_to_json(self.output_tokens));
        push_field(&mut o, "total_tokens", count_to_json(self.total_tokens));
        push_field(&mut o, "reasoning_tokens", count_to_json(self.reasoning_tokens));
        assert(fields(o@) =~= usage_json(*self)->Object_0);
        object_of(o)
    }
}

impl Default for Usage {
    fn default() -> (r: Usage)
        ensures
            r == (Usage {
                input_tokens: None,
                output_tokens: None,
                total_tokens: None,
                reasoning_tokens: None,
            }),
    {
        Usage { input_tokens: None, output_tokens: None, total_tokens: None, reasoning_tokens: None }
    }
}

impl StreamStats {
    /// Statistics as JSON.
    pub fn to_json(&self) -> (r: Json)
        ensures
            r@ == stats_json(*self),
    {
        let usage = match &self.usage {
            Some(u) => u.to_json(),
            None => Json::Null,
        };
        let window = match self.context_window {
            Some(w) => Json::UInt(w as u64),
            None => Json::Null,
        };
        obj3("rx_chars", Json::UInt(self.rx_chars as u64), "usage", usage, "context_window", window)
    }
}

/// The text of the events' text deltas, in their order.
pub open spec fn text_of(es: Seq<EventV>) -> Seq<char>
    decreases es.len(),
{
    if es.len() == 0 {
        Seq::empty()
    } else {
        match es.last() {
            EventV::TextDelta { text, .. } => text_of(es.drop_last()) + text,
            _ => text_of(es.drop_last()),
        }
    }
}

/// A response's text is that of the text deltas that came in, in their order, and every
/// event is kept.
pub proof fn lemma_response_text(es: Seq<EventV>)
    ensures
        ResponseV::empty().reduce_all(es).text == text_of(es),
        ResponseV::empty().reduce_all(es).events == es,
    decreases es.len(),
{
    if es.len() > 0 {
        lemma_response_text(es.drop_last());
        assert(es.drop_last().push(es.last()) =~= es);
    } else {
        assert(es =~= Seq::empty());
    }
}

} // verus!
