//! Requests to the model.

use crate::config::{LlmConfig, LlmConfigV};
use crate::json::{clone_jsons, fields, jsons, object_of, obj2, obj2_v, push_field, Json, JsonV};
use crate::text::opt_text;
use vstd::prelude::*;

verus! {

/// A request as it travels on the bus.
#[derive(Debug)]
pub struct LlmRequest {
    pub messages: Option<Vec<Json>>,
    pub prompt: String,
    pub config: Option<LlmConfig>,
    pub tools: Option<Vec<Json>>,
    pub grammar: Option<String>,
}

/// The model of a [`LlmRequest`].
pub struct LlmRequestV {
    pub messages: Option<Seq<JsonV>>,
    pub prompt: Seq<char>,
    pub config: Option<LlmConfigV>,
    pub tools: Option<Seq<JsonV>>,
    pub grammar: Option<Seq<char>>,
}

/// The models of optional values.
pub open spec fn opt_jsons(v: Option<Vec<Json>>) -> Option<Seq<JsonV>> {
    match v {
        Some(a) => Some(jsons(a@)),
        None => None,
    }
}

/// The model of an optional configuration.
pub open spec fn opt_config(c: Option<LlmConfig>) -> Option<LlmConfigV> {
    match c {
        Some(c) => Some(c@),
        None => None,
    }
}

impl View for LlmRequest {
    type V = LlmRequestV;

    open spec fn view(&self) -> LlmRequestV {
        LlmRequestV {
            messages: opt_jsons(self.messages),
            prompt: self.prompt@,
            config: opt_config(self.config),
            tools: opt_jsons(self.tools),
            grammar: opt_text(self.grammar),
        }
    }
}

/// Values as an array, or null.
pub open spec fn array_or_null(v: Option<Seq<JsonV>>) -> JsonV {
    match v {
        Some(a) => JsonV::Array(a),
        None => JsonV::Null,
    }
}

/// A text, or null.
pub open spec fn text_or_null(v: Option<Seq<char>>) -> JsonV {
    match v {
        Some(s) => JsonV::Str(s),
        None => JsonV::Null,
    }
}

/// A configuration as JSON.
pub open spec fn config_json(c: LlmConfigV) -> JsonV {
    JsonV::Object(
        seq![
            ("model"@, JsonV::Str(c.model)),
            ("base_url"@, JsonV::Str(c.base_url)),
            ("api_key"@, JsonV::Str(c.api_key)),
            ("temperature"@, JsonV::Float(c.temperature)),
            ("max_tokens"@, JsonV::Int(c.max_tokens as int)),
            ("request_timeout_secs"@, JsonV::Int(c.request_timeout_secs as int)),
            ("stream_timeout_secs"@, JsonV::Int(c.stream_timeout_secs as int)),
            ("max_retries"@, JsonV::Int(c.max_retries as int)),
            ("retry_base_delay_ms"@, JsonV::Int(c.retry_base_delay_ms as int)),
            (
                "context_window"@,
                match c.context_window {
                    Some(w) => JsonV::Int(w as int),
                    None => JsonV::Null,
                },
            ),
            ("loop_cycle_window"@, JsonV::Int(c.loop_cycle_window as int)),
            ("loop_max_total_chars"@, JsonV::Int(c.loop_max_total_chars as int)),
        ],
    )
}

/// A request as JSON.
pub open spec fn request_json(r: LlmRequestV) -> JsonV {
    JsonV::Object(
        seq![
            ("messages"@, array_or_null(r.messages)),
            ("prompt"@, JsonV::Str(r.prompt)),
            (
                "config"@,
                match r.config {
                    Some(c) => config_json(c),
                    None => JsonV::Null,
                },
            ),
            ("tools"@, array_or_null(r.tools)),
            ("grammar"@, text_or_null(r.grammar)),
        ],
    )
}

/// An integer as JSON.
pub fn int_json(n: i64) -> (r: Json)
    ensures
        r@ == JsonV::Int(n as int),
{
    if n >= 0 {
        Json::UInt(n as u64)
    } else {
        Json::NegInt(n)
    }
}

fn config_to_json(c: &LlmConfig) -> (r: Json)
    ensures
        r@ == config_json(c@),
{
    let mut o: Vec<(String, Json)> = Vec::new();
    push_field(&mut o, "model", Json::Str(c.model.clone()));
    push_field(&mut o, "base_url", Json::Str(c.base_url.clone()));
    push_field(&mut o, "api_key", Json::Str(c.api_key.clone()));
    push_field(&mut o, "temperature", Json::Float(c.temperature.clone()));
    push_field(&mut o, "max_tokens", int_json(c.max_tokens as i64));
    push_field(&mut o, "request_timeout_secs", Json::UInt(c.request_timeout_secs));
    push_field(&mut o, "stream_timeout_secs", Json::UInt(c.stream_timeout_secs));
    push_field(&mut o, "max_retries", Json::UInt(c.max_retries as u64));
    push_field(&mut o, "retry_base_delay_ms", Json::UInt(c.retry_base_delay_ms));
    let window = match c.context_window {
        Some(w) => Json::UInt(w as u64),
        None => Json::Null,
    };
    push_field(&mut o, "context_window", window);
    push_field(&mut o, "loop_cycle_window", Json::UInt(c.loop_cycle_window as u64));
    push_field(&mut o, "loop_max_total_chars", Json::UInt(c.loop_max_total_chars as u64));
    assert(fields(o@) =~= config_json(c@)->Object_0);
    object_of(o)
}

impl LlmRequest {
    /// The request as JSON.
    pub fn to_json(&self) -> (r: Json)
        ensures
            r@ == request_json(self@),
    {
        let messages = match &self.messages {
            Some(a) => Json::array(clone_jsons(a)),
            None => Json::Null,
        };
        let config = match &self.config {
            Some(c) => config_to_json(c),
            None => Json::Null,
        };
        let tools = match &self.tools {
            Some(a) => Json::array(clone_jsons(a)),
            None => Json::Null,
        };
        let grammar = match &self.grammar {
            Some(g) => Json::Str(g.clone()),
            None => Json::Null,
        };
        let mut o: Vec<(String, Json)> = Vec::new();
        push_field(&mut o, "messages", messages);
        push_field(&mut o, "prompt", Json::Str(self.prompt.clone()));
        push_field(&mut o, "config", config);
        push_field(&mut o, "tools", tools);
        push_field(&mut o, "grammar", grammar);
        assert(fields(o@) =~= request_json(self@)->Object_0);
        object_of(o)
    }
}

/// A request in the form that a protocol turns into a body. The temperature is the
/// decimal text of the number.
#[derive(Debug)]
pub struct CanonicalRequest {
    pub model: String,
    pub messages: Vec<Json>,
    pub tools: Option<Vec<Json>>,
    pub tool_choice: Option<Json>,
    pub temperature: Option<String>,
    pub max_tokens: Option<i32>,
    pub stream: bool,
    pub grammar: Option<String>,
}

/// The model of a [`CanonicalRequest`].
pub struct CanonicalV {
    pub model: Seq<char>,
    pub messages: Seq<JsonV>,
    pub tools: Option<Seq<JsonV>>,
    pub tool_choice: Option<JsonV>,
    pub temperature: Option<Seq<char>>,
    pub max_tokens: Option<i32>,
    pub stream: bool,
    pub grammar: Option<Seq<char>>,
}

impl View for CanonicalRequest {
    type V = CanonicalV;

    open spec fn view(&self) -> CanonicalV {
        CanonicalV {
            model: self.model@,
            messages: jsons(self.messages@),
            tools: opt_jsons(self.tools),
            tool_choice: match self.tool_choice {
                Some(j) => Some(j@),
                None => None,
            },
            temperature: opt_text(self.temperature),
            max_tokens: self.max_tokens,
            stream: self.stream,
            grammar: opt_text(self.grammar),
        }
    }
}

/// The messages of a request: its own, or its prompt as a user's message.
pub open spec fn effective_messages(r: LlmRequestV) -> Seq<JsonV> {
    match r.messages {
        Some(m) => m,
        None => seq![
            obj2_v("role"@, JsonV::Str("user"@), "content"@, JsonV::Str(r.prompt)),
        ],
    }
}

/// The canonical form of a request.
pub open spec fn canonical_of(r: LlmRequestV) -> CanonicalV {
    CanonicalV {
        model: match r.config {
            Some(c) => c.model,
            None => Seq::empty(),
        },
        messages: effective_messages(r),
        tools: r.tools,
        tool_choice: None,
        temperature: match r.config {
            Some(c) => Some(c.temperature),
            None => None,
        },
        max_tokens: match r.config {
            Some(c) => Some(c.max_tokens),
            None => None,
        },
        stream: true,
        grammar: r.grammar,
    }
}

/// The messages of a request: its own, or its prompt as a user's message.
pub fn messages_of(req: &LlmRequest) -> (r: Vec<Json>)
    ensures
        jsons(r@) == effective_messages(req@),
{
    match &req.messages {
        Some(m) => clone_jsons(m),
        None => {
            let v: Vec<Json> = vec![
                obj2("role", Json::text("user"), "content", Json::Str(req.prompt.clone())),
            ];
            assert(jsons(v@) =~= effective_messages(req@));
            v
        },
    }
}

/// Copies of optional values.
pub fn clone_opt_jsons(v: &Option<Vec<Json>>) -> (r: Option<Vec<Json>>)
    ensures
        opt_jsons(r) == opt_jsons(*v),
{
    match v {
        Some(a) => Some(clone_jsons(a)),
        None => None,
    }
}

/// A copy of an optional text.
pub fn clone_opt_text(v: &Option<String>) -> (r: Option<String>)
    ensures
        opt_text(r) == opt_text(*v),
{
    match v {
        Some(s) => Some(s.clone()),
        None => None,
    }
}

impl CanonicalRequest {
    /// The canonical form of a request; it always asks for a stream.
    pub fn from_llm_request(req: &LlmRequest) -> (r: CanonicalRequest)
        ensures
            r@ == canonical_of(req@),
    {
        let (model, temperature, max_tokens) = match &req.config {
            Some(c) => (c.model.clone(), Some(c.temperature.clone()), Some(c.max_tokens)),
            None => (String::new(), None, None),
        };
        CanonicalRequest {
            model,
            messages: messages_of(req),
            tools: clone_opt_jsons(&req.tools),
            tool_choice: None,
            temperature,
            max_tokens,
            stream: true,
            grammar: clone_opt_text(&req.grammar),
        }
    }
}

} // verus!
