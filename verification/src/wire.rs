//! The JSON forms in which messages, tool calls and their results travel.

use crate::json::{fields, lemma_key_is, obj3, obj3_v, object_of, push_field, Json, JsonV};
use crate::message::{Message, MessageV};
use crate::text::owned;
use crate::tool::{result_json, ToolExecuteMessage, ToolResultMessage, ToolResultV};
use vstd::prelude::*;

verus! {

/// The model of a [`ToolExecuteMessage`].
pub struct ExecuteV {
    pub id: Seq<char>,
    pub name: Seq<char>,
    pub arguments: JsonV,
}

impl View for ToolExecuteMessage {
    type V = ExecuteV;

    open spec fn view(&self) -> ExecuteV {
        ExecuteV {
            id: self.tool_call_id@,
            name: self.tool_name@,
            arguments: self.arguments@,
        }
    }
}

/// A call as JSON.
pub open spec fn execute_json(e: ExecuteV) -> JsonV {
    obj3_v(
        "tool_call_id"@,
        JsonV::Str(e.id),
        "tool_name"@,
        JsonV::Str(e.name),
        "arguments"@,
        e.arguments,
    )
}

/// A value that must be there, as a reader of values takes it.
pub open spec fn taken(v: Option<JsonV>) -> Option<JsonV> {
    match v {
        Some(j) => j.converted(),
        None => None,
    }
}

fn take_value(v: Option<&Json>) -> (r: Option<Json>)
    ensures
        ({
            let m = match v {
                Some(j) => Some(j@),
                None => None,
            };
            match r {
                Some(j) => taken(m) == Some(j@),
                None => taken(m) is None,
            }
        }),
{
    match v {
        Some(j) => match j.convert() {
            Ok(c) => Some(c),
            Err(_) => None,
        },
        None => None,
    }
}

/// The call that a JSON value holds; all three parts must be there.
pub open spec fn execute_of(v: JsonV) -> Option<ExecuteV> {
    match (v.part_text("tool_call_id"@, 0), v.part_text("tool_name"@, 1), taken(
        v.part("arguments"@, 2),
    )) {
        (Some(id), Some(name), Some(arguments)) => if v.has_parts(3, 3) {
            Some(ExecuteV { id, name, arguments })
        } else {
            None
        },
        _ => None,
    }
}

impl ToolExecuteMessage {
    /// The call as JSON.
    pub fn to_json(&self) -> (r: Json)
        ensures
            r@ == execute_json(self@),
    {
        obj3(
            "tool_call_id",
            Json::Str(self.tool_call_id.clone()),
            "tool_name",
            Json::Str(self.tool_name.clone()),
            "arguments",
            self.arguments.clone(),
        )
    }

    /// The call that a JSON value holds.
    pub fn from_json(v: &Json) -> (r: Option<ToolExecuteMessage>)
        ensures
            match r {
                Some(m) => execute_of(v@) == Some(m@),
                None => execute_of(v@) is None,
            },
    {
        if !v.has_parts(3, 3) {
            return None;
        }
        match (
            v.part_text("tool_call_id", 0),
            v.part_text("tool_name", 1),
            take_value(v.part("arguments", 2)),
        ) {
            (Some(id), Some(name), Some(arguments)) => Some(
                ToolExecuteMessage { tool_call_id: owned(id), tool_name: owned(name), arguments },
            ),
            _ => None,
        }
    }
}

/// A text that may be missing or null.
pub open spec fn text_if_any(v: Option<JsonV>) -> Option<Option<Seq<char>>> {
    match v {
        None => Some(None),
        Some(JsonV::Null) => Some(None),
        Some(JsonV::Str(s)) => Some(Some(s)),
        Some(_) => None,
    }
}

/// The result that a JSON value holds; all but the error must be there, and in an array
/// the error too.
pub open spec fn tool_result_of(v: JsonV) -> Option<ToolResultV> {
    match (
        v.part_text("tool_call_id"@, 0),
        v.part_text("tool_name"@, 1),
        v.part("success"@, 2),
        v.part_text("result"@, 3),
        text_if_any(v.part("error"@, 4)),
    ) {
        (Some(id), Some(name), Some(JsonV::Bool(success)), Some(result), Some(error)) => {
            if v.has_parts(5, 5) {
                Some(ToolResultV { id, name, success, result, error })
            } else {
                None
            }
        },
        _ => None,
    }
}

impl ToolResultMessage {
    /// The result that a JSON value holds.
    pub fn from_json(v: &Json) -> (r: Option<ToolResultMessage>)
        ensures
            match r {
                Some(m) => tool_result_of(v@) == Some(m@),
                None => tool_result_of(v@) is None,
            },
    {
        if !v.has_parts(5, 5) {
            return None;
        }
        let success = match v.part("success", 2) {
            Some(Json::Bool(b)) => *b,
            _ => return None,
        };
        let error: Option<String> = match v.part("error", 4) {
            None => None,
            Some(Json::Null) => None,
            Some(Json::Str(s)) => Some(s.clone()),
            Some(_) => return None,
        };
        match (
            v.part_text("tool_call_id", 0),
            v.part_text("tool_name", 1),
            v.part_text("result", 3),
        ) {
            (Some(id), Some(name), Some(result)) => Some(
                ToolResultMessage {
                    tool_call_id: owned(id),
                    tool_name: owned(name),
                    success,
                    result: owned(result),
                    error,
                },
            ),
            _ => None,
        }
    }
}

/// A message with its reference, as JSON.
pub open spec fn message_json(reference: Seq<char>, m: MessageV) -> JsonV {
    JsonV::Object(
        seq![
            ("reference"@, JsonV::Str(reference)),
            ("topic"@, JsonV::Str(m.topic)),
            ("source"@, JsonV::Str(m.source)),
            ("payload"@, m.payload),
            ("meta"@, m.meta),
        ],
    )
}

/// The message, with its reference, that a JSON value holds. A missing reference is empty,
/// missing metadata null; all else must be there.
pub open spec fn message_of(v: JsonV) -> Option<(Seq<char>, MessageV)> {
    let reference = match v.part("reference"@, 0) {
        None => Some(Seq::empty()),
        Some(JsonV::Str(s)) => Some(s),
        Some(_) => None,
    };
    let meta = match v.part("meta"@, 4) {
        None => Some(JsonV::Null),
        Some(j) => j.converted(),
    };
    match (
        reference,
        v.part_text("topic"@, 1),
        v.part_text("source"@, 2),
        taken(v.part("payload"@, 3)),
        meta,
    ) {
        (Some(reference), Some(topic), Some(source), Some(payload), Some(meta)) => if v.has_parts(
            4,
            5,
        ) {
            Some((reference, MessageV { topic, source, payload, meta }))
        } else {
            None
        },
        _ => None,
    }
}

impl Message {
    /// The message as JSON.
    pub fn to_json(&self) -> (r: Json)
        ensures
            r@ == message_json(self.reference@, self@),
    {
        let mut o: Vec<(String, Json)> = Vec::new();
        push_field(&mut o, "reference", Json::Str(self.reference.clone()));
        push_field(&mut o, "topic", Json::Str(self.topic.clone()));
        push_field(&mut o, "source", Json::Str(self.source.clone()));
        push_field(&mut o, "payload", self.payload.clone());
        push_field(&mut o, "meta", self.meta.clone());
        assert(fields(o@) =~= message_json(self.reference@, self@)->Object_0);
        object_of(o)
    }

    /// The message that a JSON value holds.
    pub fn from_json(v: &Json) -> (r: Option<Message>)
        ensures
            match r {
                Some(m) => message_of(v@) == Some((m.reference@, m@)),
                None => message_of(v@) is None,
            },
    {
        if !v.has_parts(4, 5) {
            return None;
        }
        let reference = match v.part("reference", 0) {
            None => {
                let e = String::new();
                assert(e@ =~= Seq::empty());
                e
            },
            Some(Json::Str(s)) => s.clone(),
            Some(_) => return None,
        };
        let meta = match v.part("meta", 4) {
            Some(m) => match m.convert() {
                Ok(c) => c,
                Err(_) => return None,
            },
            None => Json::Null,
        };
        match (v.part_text("topic", 1), v.part_text("source", 2), take_value(v.part("payload", 3))) {
            (Some(topic), Some(source), Some(payload)) => Some(
                Message { reference, topic: owned(topic), source: owned(source), payload, meta },
            ),
            _ => None,
        }
    }
}

/// A call reads back as it was sent, where its arguments have no reserved key.
pub proof fn lemma_execute_reads_back(e: ExecuteV)
    requires
        e.arguments.unreserved(),
    ensures
        execute_of(execute_json(e)) == Some(e),
{
    reveal_strlit("tool_call_id");
    reveal_strlit("tool_name");
    reveal_strlit("arguments");
    let o = execute_json(e)->Object_0;
    assert(o[0].0.len() == 12 && o[1].0.len() == 9 && o[2].0.len() == 9);
    assert(o[1].0[0] == 't' && o[2].0[0] == 'a');
    lemma_key_is(o, "tool_call_id"@, 0, 0);
    lemma_key_is(o, "tool_name"@, 0, 1);
    lemma_key_is(o, "arguments"@, 0, 2);
}

/// A result reads back as it was sent.
pub proof fn lemma_result_reads_back(r: ToolResultV)
    ensures
        tool_result_of(result_json(r)) == Some(r),
{
    reveal_strlit("tool_call_id");
    reveal_strlit("tool_name");
    reveal_strlit("success");
    reveal_strlit("result");
    reveal_strlit("error");
    let o = result_json(r)->Object_0;
    assert(o[0].0.len() == 12 && o[1].0.len() == 9 && o[2].0.len() == 7 && o[3].0.len() == 6
        && o[4].0.len() == 5);
    lemma_key_is(o, "tool_call_id"@, 0, 0);
    lemma_key_is(o, "tool_name"@, 0, 1);
    lemma_key_is(o, "success"@, 0, 2);
    lemma_key_is(o, "result"@, 0, 3);
    lemma_key_is(o, "error"@, 0, 4);
}

/// A message reads back as it was sent, reference and metadata with it, where what it carries
/// has no reserved key.
pub proof fn lemma_message_reads_back(reference: Seq<char>, m: MessageV)
    requires
        m.payload.unreserved(),
        m.meta.unreserved(),
    ensures
        message_of(message_json(reference, m)) == Some((reference, m)),
{
    reveal_strlit("reference");
    reveal_strlit("topic");
    reveal_strlit("source");
    reveal_strlit("payload");
    reveal_strlit("meta");
    let o = message_json(reference, m)->Object_0;
    assert(o[0].0.len() == 9 && o[1].0.len() == 5 && o[2].0.len() == 6 && o[3].0.len() == 7
        && o[4].0.len() == 4);
    lemma_key_is(o, "reference"@, 0, 0);
    lemma_key_is(o, "topic"@, 0, 1);
    lemma_key_is(o, "source"@, 0, 2);
    lemma_key_is(o, "payload"@, 0, 3);
    lemma_key_is(o, "meta"@, 0, 4);
}

} // verus!
