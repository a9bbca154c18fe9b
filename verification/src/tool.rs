//! Tools: their definitions, the messages to and from their runners, and the registry.

use crate::actor::{push_topic, ActorAnnouncement, AnnouncementV};
use crate::internal_tools::{tool_def, tool_def_v};
use crate::json::{fields, object_of, push_field, Json, JsonV};
use crate::message::{Message, MessageV};
use crate::request::text_or_null;
use crate::text::{opt_text, owned, same, texts};
use crate::text::text_result;
use vstd::prelude::*;

verus! {

/// The definition of a tool.
#[derive(Debug, PartialEq, Eq)]
pub struct ToolSyntax {
    pub name: String,
    pub description: String,
    pub parameters: Json,
}

/// The model of a [`ToolSyntax`].
pub struct SyntaxV {
    pub name: Seq<char>,
    pub description: Seq<char>,
    pub parameters: JsonV,
}

impl View for ToolSyntax {
    type V = SyntaxV;

    open spec fn view(&self) -> SyntaxV {
        SyntaxV {
            name: self.name@,
            description: self.description@,
            parameters: self.parameters@,
        }
    }
}

pub open spec fn syntaxes(s: Seq<ToolSyntax>) -> Seq<SyntaxV> {
    s.map_values(|t: ToolSyntax| t@)
}

impl SyntaxV {
    /// The definition in the form that the chat protocol wants.
    pub open spec fn openai(self) -> JsonV {
        tool_def_v(self.name, self.description, self.parameters)
    }
}

impl ToolSyntax {
    pub fn new(name: String, description: String, parameters: Json) -> (r: ToolSyntax)
        ensures
            r == (ToolSyntax { name, description, parameters }),
    {
        ToolSyntax { name, description, parameters }
    }

    /// The definition in the form that the chat protocol wants.
    pub fn to_openai_json(&self) -> (r: Json)
        ensures
            r@ == self@.openai(),
    {
        tool_def(self.name.as_str(), self.description.as_str(), self.parameters.clone())
    }
}

/// A tool, as it is offered to the model.
pub trait Tool: Sized {
    fn name(&self) -> (r: &str);

    fn description(&self) -> (r: &str);

    fn parameters(&self) -> (r: Json);

    /// The definition of the tool.
    fn syntax(&self) -> (r: ToolSyntax)
        ensures
            exists|n: &str| call_ensures(Self::name, (self,), n) && r.name@ == n@,
            exists|d: &str| call_ensures(Self::description, (self,), d) && r.description@ == d@,
            call_ensures(Self::parameters, (self,), r.parameters),
    {
        ToolSyntax {
            name: owned(self.name()),
            description: owned(self.description()),
            parameters: self.parameters(),
        }
    }
}

impl Clone for ToolSyntax {
    fn clone(&self) -> (r: ToolSyntax)
        ensures
            r@ == self@,
    {
        ToolSyntax {
            name: self.name.clone(),
            description: self.description.clone(),
            parameters: self.parameters.clone(),
        }
    }
}

/// Asks a tool runner to execute a call.
#[derive(Debug)]
pub struct ToolExecuteMessage {
    pub tool_call_id: String,
    pub tool_name: String,
    pub arguments: Json,
}

/// What a tool runner answers.
#[derive(Debug)]
pub struct ToolResultMessage {
    pub tool_call_id: String,
    pub tool_name: String,
    pub success: bool,
    pub result: String,
    pub error: Option<String>,
}

/// The model of a [`ToolResultMessage`].
pub struct ToolResultV {
    pub id: Seq<char>,
    pub name: Seq<char>,
    pub success: bool,
    pub result: Seq<char>,
    pub error: Option<Seq<char>>,
}

impl View for ToolResultMessage {
    type V = ToolResultV;

    open spec fn view(&self) -> ToolResultV {
        ToolResultV {
            id: self.tool_call_id@,
            name: self.tool_name@,
            success: self.success,
            result: self.result@,
            error: opt_text(self.error),
        }
    }
}

/// What a runner answers to a call.
pub open spec fn result_of(
    name: Seq<char>,
    id: Seq<char>,
    outcome: Result<Seq<char>, Seq<char>>,
) -> ToolResultV {
    match outcome {
        Ok(t) => ToolResultV { id, name, success: true, result: t, error: None },
        Err(e) => ToolResultV { id, name, success: false, result: Seq::empty(), error: Some(e) },
    }
}

/// A result as JSON.
pub open spec fn result_json(r: ToolResultV) -> JsonV {
    JsonV::Object(
        seq![
            ("tool_call_id"@, JsonV::Str(r.id)),
            ("tool_name"@, JsonV::Str(r.name)),
            ("success"@, JsonV::Bool(r.success)),
            ("result"@, JsonV::Str(r.result)),
            ("error"@, text_or_null(r.error)),
        ],
    )
}

impl ToolResultMessage {
    /// What a runner answers to a call that came out so: a text, or an error and no text.
    pub fn from_outcome(tool_name: &str, tool_call_id: &str, outcome: Result<String, String>) -> (r:
        ToolResultMessage)
        ensures
            r@ == result_of(tool_name@, tool_call_id@, text_result(outcome)),
    {
        match outcome {
            Ok(t) => ToolResultMessage {
                tool_call_id: owned(tool_call_id),
                tool_name: owned(tool_name),
                success: true,
                result: t,
                error: None,
            },
            Err(e) => ToolResultMessage {
                tool_call_id: owned(tool_call_id),
                tool_name: owned(tool_name),
                success: false,
                result: String::new(),
                error: Some(e),
            },
        }
    }

    /// The result as JSON.
    pub fn to_json(&self) -> (r: Json)
        ensures
            r@ == result_json(self@),
    {
        let error = match &self.error {
            Some(e) => Json::Str(e.clone()),
            None => Json::Null,
        };
        let mut o: Vec<(String, Json)> = Vec::new();
        push_field(&mut o, "tool_call_id", Json::Str(self.tool_call_id.clone()));
        push_field(&mut o, "tool_name", Json::Str(self.tool_name.clone()));
        push_field(&mut o, "success", Json::Bool(self.success));
        push_field(&mut o, "result", Json::Str(self.result.clone()));
        push_field(&mut o, "error", error);
        assert(fields(o@) =~= result_json(self@)->Object_0);
        object_of(o)
    }
}

/// Runs the calls of one tool.
#[derive(Debug)]
pub struct ToolActorRunner {
    pub tool_name: String,
}

impl ToolActorRunner {
    pub open spec fn actor_name(&self) -> Seq<char> {
        "tool-"@ + self.tool_name@
    }

    pub open spec fn topic(&self) -> Seq<char> {
        "tool:"@ + self.tool_name@ + ":execute"@
    }

    pub fn new(tool_name: &str) -> (r: ToolActorRunner)
        ensures
            r.tool_name@ == tool_name@,
    {
        ToolActorRunner { tool_name: owned(tool_name) }
    }

    pub fn actor_id(&self) -> (r: String)
        ensures
            r@ == self.actor_name(),
    {
        let mut out = owned("tool-");
        out.append(self.tool_name.as_str());
        out
    }

    /// The topic on which calls of the tool arrive.
    pub fn execute_topic(&self) -> (r: String)
        ensures
            r@ == self.topic(),
    {
        let mut out = owned("tool:");
        out.append(self.tool_name.as_str());
        out.append(":execute");
        out
    }

    /// What the runner announces: it listens to its tool's calls and speaks on the shared
    /// topic of results.
    pub fn announce(&self) -> (r: ActorAnnouncement)
        ensures
            r@ == (AnnouncementV {
                id: self.actor_name(),
                subscriptions: seq![self.topic()],
                publications: seq!["tool:results"@],
            }),
    {
        let mut subs: Vec<String> = Vec::new();
        let mut pubs: Vec<String> = Vec::new();
        push_topic(&mut subs, self.execute_topic().as_str());
        push_topic(&mut pubs, "tool:results");
        assert(texts(subs@) =~= seq![self.topic()]);
        assert(texts(pubs@) =~= seq!["tool:results"@]);
        ActorAnnouncement { id: self.actor_id(), subscriptions: subs, publications: pubs }
    }

    /// The message that carries the outcome of a call.
    pub fn result_message(&self, tool_call_id: &str, outcome: Result<String, String>) -> (r: Message)
        ensures
            r@ == MessageV::new(
                "tool:results"@,
                self.actor_name(),
                result_json(
                    result_of(self.tool_name@, tool_call_id@, text_result(outcome)),
                ),
            ),
    {
        let result = ToolResultMessage::from_outcome(
            self.tool_name.as_str(),
            tool_call_id,
            outcome,
        );
        Message::new("tool:results", self.actor_id().as_str(), result.to_json())
    }
}

/// The tools that are on offer, each name once.
#[derive(Debug)]
pub struct ToolRegistry {
    tools: Vec<ToolSyntax>,
}

impl View for ToolRegistry {
    type V = Seq<SyntaxV>;

    closed spec fn view(&self) -> Seq<SyntaxV> {
        syntaxes(self.tools@)
    }
}

/// Whether the list has a tool of that name.
pub open spec fn has_tool(ts: Seq<SyntaxV>, name: Seq<char>) -> bool {
    exists|i: int| 0 <= i < ts.len() && (#[trigger] ts[i]).name == name
}

/// Whether no two tools have the same name.
pub open spec fn unique_names(ts: Seq<SyntaxV>) -> bool {
    forall|i: int, j: int|
        0 <= i < j < ts.len() ==> (#[trigger] ts[i]).name != (#[trigger] ts[j]).name
}

impl ToolRegistry {
    #[verifier::type_invariant]
    spec fn unique(self) -> bool {
        unique_names(syntaxes(self.tools@))
    }

    pub fn new() -> (r: ToolRegistry)
        ensures
            r@ == Seq::<SyntaxV>::empty(),
    {
        let tools: Vec<ToolSyntax> = Vec::new();
        assert(syntaxes(tools@) =~= Seq::empty());
        ToolRegistry { tools }
    }

    fn index_of(&self, name: &str) -> (r: Option<usize>)
        ensures
            match r {
                Some(i) => i < self@.len() && self@[i as int].name == name@,
                None => !has_tool(self@, name@),
            },
            self@.len() == self.tools@.len(),
    {
        let mut i: usize = 0;
        while i < self.tools.len()
            invariant
                i <= self.tools@.len(),
                forall|j: int| 0 <= j < i ==> (#[trigger] self@[j]).name != name@,
            decreases self.tools.len() - i,
        {
            assert(self@[i as int] == self.tools@[i as int]@);
            if same(self.tools[i].name.as_str(), name) {
                return Some(i);
            }
            i = i + 1;
        }
        None
    }

    /// Adds a tool, unless there is one of that name; whether it was added.
    pub fn add(&mut self, tool: ToolSyntax) -> (r: bool)
        ensures
            r == !has_tool(old(self)@, tool@.name),
            final(self)@ == if r {
                old(self)@.push(tool@)
            } else {
                old(self)@
            },
            unique_names(final(self)@),
    {
        proof {
            use_type_invariant(&*self);
        }
        if let Some(i) = self.index_of(tool.name.as_str()) {
            assert(self@[i as int].name == tool@.name);
            return false;
        }
        let mut tools: Vec<ToolSyntax> = Vec::new();
        std::mem::swap(&mut tools, &mut self.tools);
        let ghost before = tools@;
        tools.push(tool);
        proof {
            assert(syntaxes(tools@) =~= syntaxes(before).push(tool@));
            assert forall|i: int, j: int| 0 <= i < j < syntaxes(tools@).len() implies (
            #[trigger] syntaxes(tools@)[i]).name != (#[trigger] syntaxes(tools@)[j]).name by {
                if j == before.len() {
                    assert(syntaxes(tools@)[i] == syntaxes(before)[i]);
                    assert(old(self)@[i].name != tool@.name);
                } else {
                    assert(syntaxes(tools@)[i] == syntaxes(before)[i]);
                    assert(syntaxes(tools@)[j] == syntaxes(before)[j]);
                }
            }
        }
        self.tools = tools;
        true
    }

    pub fn len(&self) -> (r: usize)
        ensures
            r == self@.len(),
    {
        self.tools.len()
    }

    pub fn is_empty(&self) -> (r: bool)
        ensures
            r == (self@.len() == 0),
    {
        self.tools.len() == 0
    }

    /// The definitions, in the order in which they were added.
    pub fn syntaxes(&self) -> (r: Vec<ToolSyntax>)
        ensures
            syntaxes(r@) == self@,
    {
        let mut out: Vec<ToolSyntax> = Vec::new();
        for i in 0..self.tools.len()
            invariant
                out@.len() == i,
                forall|j: int| 0 <= j < i ==> (#[trigger] out@[j])@ == self.tools@[j]@,
        {
            out.push(self.tools[i].clone());
        }
        assert(syntaxes(out@) =~= self@);
        out
    }

    /// The definitions in the form that the chat protocol wants.
    pub fn to_openai_json(&self) -> (r: Json)
        ensures
            r@ == JsonV::Array(self@.map_values(|t: SyntaxV| t.openai())),
    {
        let mut out: Vec<Json> = Vec::new();
        for i in 0..self.tools.len()
            invariant
                out@.len() == i,
                forall|j: int| 0 <= j < i ==> (#[trigger] out@[j])@ == self.tools@[j]@.openai(),
        {
            out.push(self.tools[i].to_openai_json());
        }
        let r = Json::array(out);
        assert(r@->Array_0 =~= self@.map_values(|t: SyntaxV| t.openai()));
        r
    }

    /// The tool of that name.
    pub fn find(&self, name: &str) -> (r: Option<&ToolSyntax>)
        ensures
            match r {
                Some(t) => t@.name == name@ && self@.contains(t@),
                None => !has_tool(self@, name@),
            },
    {
        match self.index_of(name) {
            Some(i) => {
                assert(self@[i as int] == self.tools@[i as int]@);
                Some(&self.tools[i])
            },
            None => None,
        }
    }
}

} // verus!
