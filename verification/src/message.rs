//! Messages on the bus.

use crate::json::{
    json_write, lemma_get_set, lemma_get_set_other, lemma_key_is, obj1, obj1_v, Json, JsonV,
};
use crate::text::{opt_str, opt_text, owned};
use vstd::prelude::*;

verus! {

/// What a message means to the user interface.
#[derive(Debug, Clone, Copy, PartialEq, Eq, Structural)]
pub enum UiMessageType {
    UserInput,
    LlmThinking,
    LlmStream,
    LlmStreamEnd,
    LlmToolCall,
    LlmToolResult,
    LlmToolCalls,
    LlmDump,
    Echo,
    Log,
    Info,
    Error,
    Warning,
    Continue,
    Interrupt,
    StreamStats,
}

impl UiMessageType {
    pub open spec fn name(self) -> Seq<char> {
        match self {
            UiMessageType::UserInput => "UserInput"@,
            UiMessageType::LlmThinking => "LlmThinking"@,
            UiMessageType::LlmStream => "LlmStream"@,
            UiMessageType::LlmStreamEnd => "LlmStreamEnd"@,
            UiMessageType::LlmToolCall => "LlmToolCall"@,
            UiMessageType::LlmToolResult => "LlmToolResult"@,
            UiMessageType::LlmToolCalls => "LlmToolCalls"@,
            UiMessageType::LlmDump => "LlmDump"@,
            UiMessageType::Echo => "Echo"@,
            UiMessageType::Log => "Log"@,
            UiMessageType::Info => "Info"@,
            UiMessageType::Error => "Error"@,
            UiMessageType::Warning => "Warning"@,
            UiMessageType::Continue => "Continue"@,
            UiMessageType::Interrupt => "Interrupt"@,
            UiMessageType::StreamStats => "StreamStats"@,
        }
    }

    /// The name under which the type travels in a message's metadata.
    pub fn as_str(&self) -> (r: &'static str)
        ensures
            r@ == self.name(),
    {
        match self {
            UiMessageType::UserInput => "UserInput",
            UiMessageType::LlmThinking => "LlmThinking",
            UiMessageType::LlmStream => "LlmStream",
            UiMessageType::LlmStreamEnd => "LlmStreamEnd",
            UiMessageType::LlmToolCall => "LlmToolCall",
            UiMessageType::LlmToolResult => "LlmToolResult",
            UiMessageType::LlmToolCalls => "LlmToolCalls",
            UiMessageType::LlmDump => "LlmDump",
            UiMessageType::Echo => "Echo",
            UiMessageType::Log => "Log",
            UiMessageType::Info => "Info",
            UiMessageType::Error => "Error",
            UiMessageType::Warning => "Warning",
            UiMessageType::Continue => "Continue",
            UiMessageType::Interrupt => "Interrupt",
            UiMessageType::StreamStats => "StreamStats",
        }
    }
}

/// A message on the bus.
#[derive(Debug, PartialEq, Eq)]
pub struct Message {
    pub reference: String,
    pub topic: String,
    pub source: String,
    pub payload: Json,
    pub meta: Json,
}

/// The model of a [`Message`]: all of it but the reference, which is drawn at random.
pub struct MessageV {
    pub topic: Seq<char>,
    pub source: Seq<char>,
    pub payload: JsonV,
    pub meta: JsonV,
}

/// The metadata with one entry set; metadata that is no object is replaced.
pub open spec fn meta_with(meta: JsonV, k: Seq<char>, v: JsonV) -> JsonV {
    if meta is Object {
        meta.set(k, v)
    } else {
        obj1_v(k, v)
    }
}

impl MessageV {
    /// A message without metadata.
    pub open spec fn new(topic: Seq<char>, source: Seq<char>, payload: JsonV) -> MessageV {
        MessageV { topic, source, payload, meta: JsonV::Null }
    }

    /// A message that carries a text.
    pub open spec fn of_text(topic: Seq<char>, source: Seq<char>, text: Seq<char>) -> MessageV {
        MessageV::new(topic, source, JsonV::Str(text))
    }

    pub open spec fn with_type(self, t: Seq<char>) -> MessageV {
        MessageV { meta: meta_with(self.meta, "type"@, JsonV::Str(t)), ..self }
    }

    pub open spec fn with_stream_id(self, id: Seq<char>) -> MessageV {
        MessageV { meta: meta_with(self.meta, "stream_id"@, JsonV::Str(id)), ..self }
    }

    pub open spec fn with_depth(self, depth: int) -> MessageV {
        MessageV { meta: meta_with(self.meta, "depth"@, JsonV::Int(depth)), ..self }
    }

    pub open spec fn meta_type(self) -> Option<Seq<char>> {
        self.meta.str_at("type"@)
    }

    pub open spec fn stream_id(self) -> Option<Seq<char>> {
        self.meta.str_at("stream_id"@)
    }

    pub open spec fn meta_depth(self) -> usize {
        match self.meta.at("depth"@).as_u64() {
            Some(d) => d as usize,
            None => 0,
        }
    }

    /// The payload where it is a text, else its JSON text.
    pub open spec fn payload_text(self) -> Seq<char> {
        match self.payload.as_str() {
            Some(s) => s,
            None => json_write(self.payload),
        }
    }
}

impl View for Message {
    type V = MessageV;

    open spec fn view(&self) -> MessageV {
        MessageV {
            topic: self.topic@,
            source: self.source@,
            payload: self.payload@,
            meta: self.meta@,
        }
    }
}

/// `uuid::Uuid::new_v4` in its hyphenated form: a random identifier of 36 characters.
#[verifier::external_body]
pub(crate) fn fresh_id() -> (r: String)
    ensures
        r@.len() == 36,
{
    uuid::Uuid::new_v4().to_string()
}

/// Sets one entry of the metadata.
fn put_meta(meta: Json, k: &str, v: Json) -> (r: Json)
    ensures
        r@ == meta_with(meta@, k@, v@),
{
    let mut meta = meta;
    if meta.is_object() {
        meta.set(k, v);
        meta
    } else {
        obj1(k, v)
    }
}

impl Message {
    /// A message with a fresh reference and no metadata.
    pub fn new(topic: &str, source: &str, payload: Json) -> (r: Message)
        ensures
            r@ == MessageV::new(topic@, source@, payload@),
            r.reference@.len() == 36,
    {
        Message {
            reference: fresh_id(),
            topic: owned(topic),
            source: owned(source),
            payload,
            meta: Json::Null,
        }
    }

    /// A message with a given reference and no metadata.
    pub fn with_reference(reference: String, topic: &str, source: &str, payload: Json) -> (r:
        Message)
        ensures
            r@ == MessageV::new(topic@, source@, payload@),
            r.reference == reference,
    {
        Message { reference, topic: owned(topic), source: owned(source), payload, meta: Json::Null }
    }

    /// A message that carries a text.
    pub fn text(topic: &str, source: &str, text: &str) -> (r: Message)
        ensures
            r@ == MessageV::of_text(topic@, source@, text@),
            r.reference@.len() == 36,
    {
        Message::new(topic, source, Json::text(text))
    }

    /// Sets the type in the metadata.
    pub fn with_type(self, item_type: &str) -> (r: Message)
        ensures
            r@ == self@.with_type(item_type@),
            r.reference == self.reference,
    {
        Message { meta: put_meta(self.meta, "type", Json::text(item_type)), ..self }
    }

    /// Sets the stream id in the metadata.
    pub fn with_stream_id(self, stream_id: String) -> (r: Message)
        ensures
            r@ == self@.with_stream_id(stream_id@),
            r.reference == self.reference,
    {
        Message { meta: put_meta(self.meta, "stream_id", Json::Str(stream_id)), ..self }
    }

    /// Sets the nesting depth of a subagent in the metadata.
    pub fn with_depth(self, depth: usize) -> (r: Message)
        ensures
            r@ == self@.with_depth(depth as int),
            r.reference == self.reference,
    {
        Message { meta: put_meta(self.meta, "depth", Json::UInt(depth as u64)), ..self }
    }

    pub fn meta_type(&self) -> (r: Option<&str>)
        ensures
            opt_str(r) == self@.meta_type(),
    {
        self.meta.str_at("type")
    }

    /// The nesting depth in the metadata, or 0 (top level).
    pub fn meta_depth(&self) -> (r: usize)
        ensures
            r == self@.meta_depth(),
    {
        match self.meta.get("depth") {
            Some(d) => match d.as_u64() {
                Some(n) => n as usize,
                None => 0,
            },
            None => 0,
        }
    }

    pub fn stream_id(&self) -> (r: Option<String>)
        ensures
            opt_text(r) == self@.stream_id(),
    {
        match self.meta.str_at("stream_id") {
            Some(s) => Some(owned(s)),
            None => None,
        }
    }

    /// The payload, where it is a text.
    pub fn payload_str(&self) -> (r: Option<String>)
        ensures
            opt_text(r) == self@.payload.as_str(),
    {
        match self.payload.as_str() {
            Some(s) => Some(owned(s)),
            None => None,
        }
    }

    /// The payload where it is a text, else its JSON text.
    pub fn payload_text(&self) -> (r: String)
        ensures
            r@ == self@.payload_text(),
    {
        match self.payload.as_str() {
            Some(s) => owned(s),
            None => self.payload.write(),
        }
    }

    /// One line for logs: topic, source and payload.
    pub fn describe(&self) -> (r: String)
        ensures
            r@ == "["@ + self.topic@ + "] "@ + self.source@ + " -> "@ + json_write(self@.payload),
    {
        let mut out = owned("[");
        out.append(self.topic.as_str());
        out.append("] ");
        out.append(self.source.as_str());
        out.append(" -> ");
        out.append(self.payload.write().as_str());
        out
    }
}

impl Clone for Message {
    fn clone(&self) -> (r: Message)
        ensures
            r@ == self@,
            r.reference == self.reference,
    {
        Message {
            reference: self.reference.clone(),
            topic: self.topic.clone(),
            source: self.source.clone(),
            payload: self.payload.clone(),
            meta: self.meta.clone(),
        }
    }
}

proof fn lemma_meta_with(meta: JsonV, k: Seq<char>, v: JsonV, other: Seq<char>)
    ensures
        meta_with(meta, k, v) is Object,
        meta_with(meta, k, v).get(k) == Some(v),
        k != other ==> meta_with(meta, k, v).get(other) == meta.get(other),
{
    if meta is Object {
        lemma_get_set(meta, k, v);
        if k != other {
            lemma_get_set_other(meta, k, v, other);
        }
    } else {
        lemma_key_is(obj1_v(k, v)->Object_0, k, 0, 0);
        reveal_with_fuel(crate::json::key_from, 2);
    }
}

/// The type, the stream id and the depth of a message read back as they were set, and
/// setting one leaves the others.
pub proof fn lemma_metadata_reads_back(m: MessageV, t: Seq<char>, id: Seq<char>, depth: usize)
    ensures
        m.with_type(t).meta_type() == Some(t),
        m.with_type(t).stream_id() == m.stream_id(),
        m.with_type(t).meta_depth() == m.meta_depth(),
        m.with_stream_id(id).stream_id() == Some(id),
        m.with_stream_id(id).meta_type() == m.meta_type(),
        m.with_stream_id(id).meta_depth() == m.meta_depth(),
        m.with_depth(depth as int).meta_depth() == depth,
        m.with_depth(depth as int).meta_type() == m.meta_type(),
        m.with_depth(depth as int).stream_id() == m.stream_id(),
{
    reveal_strlit("type");
    reveal_strlit("stream_id");
    reveal_strlit("depth");
    let (ty, si, de) = ("type"@, "stream_id"@, "depth"@);
    assert(ty.len() == 4 && si.len() == 9 && de.len() == 5);
    lemma_meta_with(m.meta, ty, JsonV::Str(t), si);
    lemma_meta_with(m.meta, ty, JsonV::Str(t), de);
    lemma_meta_with(m.meta, si, JsonV::Str(id), ty);
    lemma_meta_with(m.meta, si, JsonV::Str(id), de);
    lemma_meta_with(m.meta, de, JsonV::Int(depth as int), ty);
    lemma_meta_with(m.meta, de, JsonV::Int(depth as int), si);
}

} // verus!
