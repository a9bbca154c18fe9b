//! Tool definitions as the model sees them.

use crate::json::{obj1, obj1_v, obj2, obj2_v, obj3, obj3_v, Json, JsonV};
use vstd::prelude::*;

verus! {

/// A tool that the model may call.
#[derive(Debug)]
pub struct ToolDefinition {
    pub name: String,
    pub description: String,
    pub parameters: Json,
}

impl ToolDefinition {
    /// The definition as JSON.
    pub open spec fn json(self) -> JsonV {
        obj3_v(
            "name"@,
            JsonV::Str(self.name@),
            "description"@,
            JsonV::Str(self.description@),
            "parameters"@,
            self.parameters@,
        )
    }

    /// The definition as JSON.
    pub fn to_json(&self) -> (r: Json)
        ensures
            r@ == self.json(),
    {
        obj3(
            "name",
            Json::Str(self.name.clone()),
            "description",
            Json::Str(self.description.clone()),
            "parameters",
            self.parameters.clone(),
        )
    }
}

/// Which tool the model is to call.
#[derive(Debug)]
pub enum ToolChoice {
    Auto,
    NoTool,
    Required,
    Tool(String),
}

/// The choice of one tool.
pub open spec fn tool_choice_v(name: Seq<char>) -> JsonV {
    obj2_v(
        "type"@,
        JsonV::Str("function"@),
        "function"@,
        obj1_v("name"@, JsonV::Str(name)),
    )
}

/// The choice of one tool.
pub fn choose_tool(name: &str) -> (r: Json)
    ensures
        r@ == tool_choice_v(name@),
{
    obj2("type", Json::text("function"), "function", obj1("name", Json::text(name)))
}

impl ToolChoice {
    /// The choice as a request states it.
    pub fn to_openai_value(&self) -> (r: Json)
        ensures
            r@ == (match self {
                ToolChoice::Auto => JsonV::Str("auto"@),
                ToolChoice::NoTool => JsonV::Str("none"@),
                ToolChoice::Required => JsonV::Str("required"@),
                ToolChoice::Tool(name) => tool_choice_v(name@),
            }),
    {
        match self {
            ToolChoice::Auto => Json::text("auto"),
            ToolChoice::NoTool => Json::text("none"),
            ToolChoice::Required => Json::text("required"),
            ToolChoice::Tool(name) => choose_tool(name.as_str()),
        }
    }
}

} // verus!
