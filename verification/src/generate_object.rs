//! Has the model return a structured result, as the arguments of a tool call.

use crate::event::{events, EventV, LlmEvent};
use crate::json::{json_convert_error, obj3, obj3_v, Json, JsonV};
use crate::schema::{choose_tool, tool_choice_v, ToolDefinition};
use crate::text::{owned, same};
use vstd::prelude::*;

verus! {

/// A request for an object with the given properties.
#[derive(Debug)]
pub struct GenerateObject {
    pub schema: Json,
}

/// The first call of the tool, from `i` on.
pub open spec fn object_from(es: Seq<EventV>, i: int) -> Option<JsonV>
    decreases es.len() - i,
{
    if i < 0 || i >= es.len() {
        None
    } else {
        match es[i] {
            EventV::ToolCall { name, input, .. } => if name == "generate_object"@ {
                Some(input)
            } else {
                object_from(es, i + 1)
            },
            _ => object_from(es, i + 1),
        }
    }
}

impl GenerateObject {
    pub fn new(schema: Json) -> (r: GenerateObject)
        ensures
            r.schema == schema,
    {
        GenerateObject { schema }
    }

    /// The tool whose arguments are the result.
    pub fn tool_definition(&self) -> (r: ToolDefinition)
        ensures
            r.name@ == "generate_object"@,
            r.description@ == "Return the structured result by calling this tool."@,
            r.parameters@ == obj3_v(
                "type"@,
                JsonV::Str("object"@),
                "properties"@,
                self.schema@,
                "required"@,
                JsonV::Array(Seq::empty()),
            ),
    {
        let none: Vec<Json> = Vec::new();
        assert(crate::json::jsons(none@) =~= Seq::empty());
        ToolDefinition {
            name: owned("generate_object"),
            description: owned("Return the structured result by calling this tool."),
            parameters: obj3(
                "type",
                Json::text("object"),
                "properties",
                self.schema.clone(),
                "required",
                Json::array(none),
            ),
        }
    }

    /// The choice of that tool.
    pub fn force_tool_choice(&self) -> (r: Json)
        ensures
            r@ == tool_choice_v("generate_object"@),
    {
        choose_tool("generate_object")
    }

    /// The result among the events of a response.
    pub fn parse_response(&self, es: &[LlmEvent]) -> (r: Result<Json, String>)
        ensures
            match object_from(events(es@), 0) {
                Some(input) => match input.converted() {
                    Some(v) => r matches Ok(j) && j@ == v,
                    None => r matches Err(e) && e@ == "Failed to parse generate_object response: "@
                        + json_convert_error(input),
                },
                None => r matches Err(e) && e@ == "No generate_object tool call found"@,
            },
    {
        let mut i: usize = 0;
        while i < es.len()
            invariant
                i <= es@.len(),
                object_from(events(es@), 0) == object_from(events(es@), i as int),
            decreases es.len() - i,
        {
            assert(events(es@)[i as int] == es@[i as int]@);
            if let LlmEvent::ToolCall { name, input, .. } = &es[i] {
                if same(name.as_str(), "generate_object") {
                    return match input.convert() {
                        Ok(j) => Ok(j),
                        Err(e) => {
                            let mut why = owned("Failed to parse generate_object response: ");
                            why.append(e.as_str());
                            Err(why)
                        },
                    };
                }
            }
            i = i + 1;
        }
        Err(owned("No generate_object tool call found"))
    }
}

} // verus!
