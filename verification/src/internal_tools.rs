//! Tools that the agent handles itself, against its own conversation state.
//!
//! - **todo_write / todo_read**: a transient todo list.
//! - **restart_from_file**: snapshot the context, wipe the conversation and go on
//!   from the instructions in a file.
//! - **set_context_reminder / schedule_wake_up**: messages for later turns.
//!
//! The agent's dispatch asks [`is_internal_tool`] before it hands a call to a tool
//! runner.

use crate::calendar::{format_utc_datetime, utc_text};
use crate::json::{
    obj1, obj1_v, obj2, obj2_v, obj3, obj3_v, text_array1, text_array2, text_array3, text_array_v,
    Json, JsonV,
};
use crate::text::{dec, dec_text, lowercase, owned, same, to_lowercase, trim, trim_str};
use vstd::prelude::*;

verus! {

/// Lifecycle status of a single todo item.
#[derive(Debug, Clone, Copy, PartialEq, Eq, Structural)]
pub enum TodoStatus {
    Pending,
    InProgress,
    Completed,
}

/// The status that a trimmed lowercase word stands for.
pub open spec fn status_named(w: Seq<char>) -> TodoStatus {
    if w == "completed"@ || w == "done"@ || w == "finished"@ {
        TodoStatus::Completed
    } else if w == "in_progress"@ || w == "in-progress"@ || w == "started"@ || w == "active"@ {
        TodoStatus::InProgress
    } else {
        TodoStatus::Pending
    }
}

impl Default for TodoStatus {
    fn default() -> (r: TodoStatus)
        ensures
            r == TodoStatus::Pending,
    {
        TodoStatus::Pending
    }
}

impl TodoStatus {
    /// The status that a word names, whatever its case and the space around it;
    /// `Pending` for any word that names none.
    pub fn from_str_loose(s: &str) -> (r: TodoStatus)
        ensures
            r == status_named(lowercase(trim(s@))),
    {
        let n = to_lowercase(trim_str(s).as_str());
        let w = n.as_str();
        if same(w, "completed") || same(w, "done") || same(w, "finished") {
            TodoStatus::Completed
        } else if same(w, "in_progress") || same(w, "in-progress") || same(w, "started") || same(
            w,
            "active",
        ) {
            TodoStatus::InProgress
        } else {
            TodoStatus::Pending
        }
    }

    pub open spec fn name(self) -> Seq<char> {
        match self {
            TodoStatus::Pending => "pending"@,
            TodoStatus::InProgress => "in_progress"@,
            TodoStatus::Completed => "completed"@,
        }
    }

    pub fn as_str(&self) -> (r: &'static str)
        ensures
            r@ == self.name(),
    {
        match self {
            TodoStatus::Pending => "pending",
            TodoStatus::InProgress => "in_progress",
            TodoStatus::Completed => "completed",
        }
    }

    pub open spec fn mark(self) -> Seq<char> {
        match self {
            TodoStatus::Pending => "[ ]"@,
            TodoStatus::InProgress => "[~]"@,
            TodoStatus::Completed => "[x]"@,
        }
    }

    /// A short mark for compact rendering.
    pub fn glyph(&self) -> (r: &'static str)
        ensures
            r@ == self.mark(),
    {
        match self {
            TodoStatus::Pending => "[ ]",
            TodoStatus::InProgress => "[~]",
            TodoStatus::Completed => "[x]",
        }
    }
}

/// A single todo entry.
#[derive(Debug, PartialEq)]
pub struct TodoEntry {
    pub content: String,
    pub status: TodoStatus,
    pub priority: String,
}

/// The model of a [`TodoEntry`].
pub struct TodoV {
    pub content: Seq<char>,
    pub status: TodoStatus,
    pub priority: Seq<char>,
}

impl View for TodoEntry {
    type V = TodoV;

    open spec fn view(&self) -> TodoV {
        TodoV { content: self.content@, status: self.status, priority: self.priority@ }
    }
}

impl Clone for TodoEntry {
    fn clone(&self) -> (r: TodoEntry)
        ensures
            r@ == self@,
    {
        TodoEntry {
            content: self.content.clone(),
            status: self.status,
            priority: self.priority.clone(),
        }
    }
}

/// The models of the entries of `s`.
pub open spec fn todos(s: Seq<TodoEntry>) -> Seq<TodoV> {
    s.map_values(|e: TodoEntry| e@)
}

/// The entry that a JSON value describes, or why it describes none.
pub open spec fn todo_of(v: JsonV) -> Result<TodoV, Seq<char>> {
    match v.str_at("content"@) {
        None => Err("todo item missing 'content'"@),
        Some(c) => if trim(c).len() == 0 {
            Err("todo item 'content' must not be empty"@)
        } else {
            Ok(
                TodoV {
                    content: trim(c),
                    status: match v.str_at("status"@) {
                        Some(s) => status_named(lowercase(trim(s))),
                        None => TodoStatus::Pending,
                    },
                    priority: v.str_or("priority"@, "medium"@),
                },
            )
        },
    }
}

impl TodoEntry {
    /// The entry that a JSON value describes. `content` is required; a status that
    /// is missing or unknown is `Pending`, a missing priority is `medium`.
    pub fn from_json(v: &Json) -> (r: Result<TodoEntry, String>)
        ensures
            match r {
                Ok(e) => todo_of(v@) == Ok::<TodoV, Seq<char>>(e@),
                Err(m) => todo_of(v@) == Err::<TodoV, Seq<char>>(m@),
            },
    {
        let content = match v.str_at("content") {
            Some(c) => trim_str(c),
            None => return Err(owned("todo item missing 'content'")),
        };
        if content.as_str().is_empty() {
            return Err(owned("todo item 'content' must not be empty"));
        }
        let status = match v.str_at("status") {
            Some(s) => TodoStatus::from_str_loose(s),
            None => TodoStatus::Pending,
        };
        let priority = owned(v.str_or("priority", "medium"));
        Ok(TodoEntry { content, status, priority })
    }
}

/// Whether `name` is a tool that the agent handles itself.
pub open spec fn internal_tool(name: Seq<char>) -> bool {
    ||| name == "todo_write"@
    ||| name == "todo_read"@
    ||| name == "restart_from_file"@
    ||| name == "set_context_reminder"@
    ||| name == "schedule_wake_up"@
}

pub fn is_internal_tool(name: &str) -> (r: bool)
    ensures
        r == internal_tool(name@),
{
    same(name, "todo_write") || same(name, "todo_read") || same(name, "restart_from_file") || same(
        name,
        "set_context_reminder",
    ) || same(name, "schedule_wake_up")
}

/// The definition of a tool in the form that the chat protocol wants.
pub open spec fn tool_def_v(name: Seq<char>, description: Seq<char>, parameters: JsonV) -> JsonV {
    obj2_v(
        "type"@,
        JsonV::Str("function"@),
        "function"@,
        obj3_v(
            "name"@,
            JsonV::Str(name),
            "description"@,
            JsonV::Str(description),
            "parameters"@,
            parameters,
        ),
    )
}

/// The definition of a tool in the form that the chat protocol wants.
pub fn tool_def(name: &str, description: &str, parameters: Json) -> (r: Json)
    ensures
        r@ == tool_def_v(name@, description@, parameters@),
{
    obj2(
        "type",
        Json::text("function"),
        "function",
        obj3(
            "name",
            Json::text(name),
            "description",
            Json::text(description),
            "parameters",
            parameters,
        ),
    )
}

/// A parameter of the given type with a description.
pub open spec fn param_v(kind: Seq<char>, description: Seq<char>) -> JsonV {
    obj2_v("type"@, JsonV::Str(kind), "description"@, JsonV::Str(description))
}

/// A parameter of the given type with a description.
pub fn param(kind: &str, description: &str) -> (r: Json)
    ensures
        r@ == param_v(kind@, description@),
{
    obj2("type", Json::text(kind), "description", Json::text(description))
}

/// A parameter that takes one of a few texts.
pub open spec fn choice_v(values: Seq<Seq<char>>) -> JsonV {
    obj2_v("type"@, JsonV::Str("string"@), "enum"@, text_array_v(values))
}

/// The schema of an object with the given properties, some of them required.
pub open spec fn schema_v(properties: JsonV, required: Seq<Seq<char>>) -> JsonV {
    obj3_v(
        "type"@,
        JsonV::Str("object"@),
        "properties"@,
        properties,
        "required"@,
        text_array_v(required),
    )
}

/// The schema of an object with the given properties; `required` lists names.
pub fn schema(properties: Json, required: Json) -> (r: Json)
    ensures
        r@ == obj3_v(
            "type"@,
            JsonV::Str("object"@),
            "properties"@,
            properties@,
            "required"@,
            required@,
        ),
{
    obj3("type", Json::text("object"), "properties", properties, "required", required)
}

pub open spec fn todo_write_def() -> JsonV {
    let item = schema_v(
        obj3_v(
            "content"@,
            param_v("string"@, "What needs to be done."@),
            "status"@,
            choice_v(seq!["pending"@, "in_progress"@, "completed"@]),
            "priority"@,
            choice_v(seq!["high"@, "medium"@, "low"@]),
        ),
        seq!["content"@, "status"@],
    );
    tool_def_v(
        "todo_write"@,
        "Create or replace the agent's transient todo list. Use this to plan multi-step work, track progress, and mark items as completed. The provided list fully replaces any previous list — pass an empty array to clear. Status: 'pending', 'in_progress' (at most one), or 'completed'."@,
        schema_v(
            obj1_v(
                "todos"@,
                obj3_v(
                    "type"@,
                    JsonV::Str("array"@),
                    "description"@,
                    JsonV::Str("The complete todo list. Each item needs at least 'content' and 'status'."@),
                    "items"@,
                    item,
                ),
            ),
            seq!["todos"@],
        ),
    )
}

pub open spec fn todo_read_def() -> JsonV {
    tool_def_v(
        "todo_read"@,
        "Read the agent's current transient todo list. Returns the full list with statuses. Useful to check progress after resuming a saved session."@,
        obj2_v(
            "type"@,
            JsonV::Str("object"@),
            "properties"@,
            JsonV::Object(Seq::empty()),
        ),
    )
}

pub open spec fn restart_from_file_def() -> JsonV {
    tool_def_v(
        "restart_from_file"@,
        "Reset the conversation context and continue from a fresh instruction file. Saves a backup of the current context to /tmp/<pid>-<datetime>.json, clears ALL conversation history and todos, then injects the file's contents as a new user instruction with a directive to continue executing. Call this ONLY when context is bloated or corrupted and you have written a handoff note to a file. Do NOT batch this with other tool calls — invoke it alone."@,
        schema_v(
            obj1_v(
                "filename"@,
                param_v(
                    "string"@,
                    "Path to the handoff/instruction file. Relative paths resolve against the agent working directory; absolute paths used as-is."@,
                ),
            ),
            seq!["filename"@],
        ),
    )
}

pub open spec fn set_context_reminder_def() -> JsonV {
    tool_def_v(
        "set_context_reminder"@,
        "Set a one-shot context-usage reminder. When the agent's token usage crosses the specified threshold, the given message is injected once into the agent loop as a user message (e.g., 'Your context is at 150k tokens — please do a context refresh now'). The reminder fires only once per session and does not repeat."@,
        schema_v(
            obj2_v(
                "threshold_tokens"@,
                param_v(
                    "number"@,
                    "The token count at which the reminder fires. When input_tokens exceeds this value, the message is injected."@,
                ),
                "message"@,
                param_v("string"@, "The message to inject when the threshold is crossed."@),
            ),
            seq!["threshold_tokens"@, "message"@],
        ),
    )
}

pub open spec fn schedule_wake_up_def() -> JsonV {
    tool_def_v(
        "schedule_wake_up"@,
        "Schedule a wake-up message to be injected into the agent loop at a future time. Supports one-shot (fires once after delay_seconds) and recurring/cron mode (fires every interval_seconds). The message is only injected when the agent loop is idle; if busy, one-shot wake-ups are deferred until idle and cron wake-ups reschedule to the next interval."@,
        schema_v(
            obj3_v(
                "delay_seconds"@,
                param_v("number"@, "Seconds from now until the first firing."@),
                "message"@,
                param_v("string"@, "The message to inject when the wake-up fires."@),
                "interval_seconds"@,
                param_v(
                    "number"@,
                    "If provided, the wake-up recurs every interval_seconds (cron mode). If omitted, it's one-shot."@,
                ),
            ),
            seq!["delay_seconds"@, "message"@],
        ),
    )
}

/// The definition of `todo_write`.
pub fn todo_write_tool() -> (r: Json)
    ensures
        r@ == todo_write_def(),
{
    let item = schema(
        obj3(
            "content",
            param("string", "What needs to be done."),
            "status",
            obj2(
                "type",
                Json::text("string"),
                "enum",
                text_array3("pending", "in_progress", "completed"),
            ),
            "priority",
            obj2("type", Json::text("string"), "enum", text_array3("high", "medium", "low")),
        ),
        text_array2("content", "status"),
    );
    let todos = obj3(
        "type",
        Json::text("array"),
        "description",
        Json::text("The complete todo list. Each item needs at least 'content' and 'status'."),
        "items",
        item,
    );
    tool_def(
        "todo_write",
        "Create or replace the agent's transient todo list. Use this to plan multi-step work, track progress, and mark items as completed. The provided list fully replaces any previous list — pass an empty array to clear. Status: 'pending', 'in_progress' (at most one), or 'completed'.",
        schema(obj1("todos", todos), text_array1("todos")),
    )
}

/// The definition of `todo_read`.
pub fn todo_read_tool() -> (r: Json)
    ensures
        r@ == todo_read_def(),
{
    tool_def(
        "todo_read",
        "Read the agent's current transient todo list. Returns the full list with statuses. Useful to check progress after resuming a saved session.",
        obj2("type", Json::text("object"), "properties", Json::object()),
    )
}

/// The definitions of every internal tool, for the model to discover.
pub fn internal_tool_defs() -> (r: Vec<Json>)
    ensures
        r@.len() == 5,
        r@[0]@ == todo_write_def(),
        r@[1]@ == todo_read_def(),
        r@[2]@ == restart_from_file_def(),
        r@[3]@ == set_context_reminder_def(),
        r@[4]@ == schedule_wake_up_def(),
{
    let restart = tool_def(
        "restart_from_file",
        "Reset the conversation context and continue from a fresh instruction file. Saves a backup of the current context to /tmp/<pid>-<datetime>.json, clears ALL conversation history and todos, then injects the file's contents as a new user instruction with a directive to continue executing. Call this ONLY when context is bloated or corrupted and you have written a handoff note to a file. Do NOT batch this with other tool calls — invoke it alone.",
        schema(
            obj1(
                "filename",
                param(
                    "string",
                    "Path to the handoff/instruction file. Relative paths resolve against the agent working directory; absolute paths used as-is.",
                ),
            ),
            text_array1("filename"),
        ),
    );
    let reminder = tool_def(
        "set_context_reminder",
        "Set a one-shot context-usage reminder. When the agent's token usage crosses the specified threshold, the given message is injected once into the agent loop as a user message (e.g., 'Your context is at 150k tokens — please do a context refresh now'). The reminder fires only once per session and does not repeat.",
        schema(
            obj2(
                "threshold_tokens",
                param(
                    "number",
                    "The token count at which the reminder fires. When input_tokens exceeds this value, the message is injected.",
                ),
                "message",
                param("string", "The message to inject when the threshold is crossed."),
            ),
            text_array2("threshold_tokens", "message"),
        ),
    );
    let wake = tool_def(
        "schedule_wake_up",
        "Schedule a wake-up message to be injected into the agent loop at a future time. Supports one-shot (fires once after delay_seconds) and recurring/cron mode (fires every interval_seconds). The message is only injected when the agent loop is idle; if busy, one-shot wake-ups are deferred until idle and cron wake-ups reschedule to the next interval.",
        schema(
            obj3(
                "delay_seconds",
                param("number", "Seconds from now until the first firing."),
                "message",
                param("string", "The message to inject when the wake-up fires."),
                "interval_seconds",
                param(
                    "number",
                    "If provided, the wake-up recurs every interval_seconds (cron mode). If omitted, it's one-shot.",
                ),
            ),
            text_array2("delay_seconds", "message"),
        ),
    );
    vec![todo_write_tool(), todo_read_tool(), restart, reminder, wake]
}

/// What an internal tool did. `context_reset` says that the handler rebuilt the
/// conversation from scratch, so that no tool result may be appended: the message
/// that it would answer is gone.
#[derive(Debug)]
pub struct InternalToolOutcome {
    pub result_text: String,
    pub success: bool,
    pub context_reset: bool,
}

/// The model of an [`InternalToolOutcome`].
pub struct OutcomeV {
    pub text: Seq<char>,
    pub success: bool,
    pub reset: bool,
}

impl View for InternalToolOutcome {
    type V = OutcomeV;

    open spec fn view(&self) -> OutcomeV {
        OutcomeV { text: self.result_text@, success: self.success, reset: self.context_reset }
    }
}

impl InternalToolOutcome {
    pub fn ok(text: &str) -> (r: InternalToolOutcome)
        ensures
            r@ == (OutcomeV { text: text@, success: true, reset: false }),
    {
        InternalToolOutcome { result_text: owned(text), success: true, context_reset: false }
    }

    pub fn err(text: &str) -> (r: InternalToolOutcome)
        ensures
            r@ == (OutcomeV { text: text@, success: false, reset: false }),
    {
        InternalToolOutcome { result_text: owned(text), success: false, context_reset: false }
    }

    pub fn with_reset(self, text: &str) -> (r: InternalToolOutcome)
        ensures
            r@ == (OutcomeV { text: text@, success: self.success, reset: true }),
    {
        InternalToolOutcome {
            result_text: owned(text),
            success: self.success,
            context_reset: true,
        }
    }
}

/// The name of the backup of a context.
pub open spec fn backup_name(pid: int, epoch_secs: int) -> Seq<char> {
    dec(pid) + "-"@ + utc_text(epoch_secs) + ".json"@
}

/// `<pid>-<datetime>.json`, with the datetime in UTC as `YYYYmmdd-HHMMSS`, so that
/// the names sort chronologically.
pub fn backup_filename(pid: u32, epoch_secs: u64) -> (r: String)
    ensures
        r@ == backup_name(pid as int, epoch_secs as int),
{
    let mut out = dec_text(pid as u64);
    out.append("-");
    out.append(format_utc_datetime(epoch_secs).as_str());
    out.append(".json");
    out
}

/// One line of a rendered todo list.
pub open spec fn todo_line(i: int, t: TodoV) -> Seq<char> {
    t.status.mark() + " "@ + dec(i + 1) + " "@ + t.priority + " — "@ + t.content + "\n"@
}

/// The first `n` lines of a rendered todo list.
pub open spec fn todo_lines(ts: Seq<TodoV>, n: int) -> Seq<char>
    decreases n,
{
    if n <= 0 {
        Seq::empty()
    } else {
        todo_lines(ts, n - 1) + todo_line(n - 1, ts[n - 1])
    }
}

/// A rendered todo list.
pub open spec fn rendered(ts: Seq<TodoV>) -> Seq<char> {
    if ts.len() == 0 {
        "(todo list is empty)"@
    } else {
        todo_lines(ts, ts.len() as int)
    }
}

/// The todo list as a compact, human-readable block.
pub fn render_todos(list: &[TodoEntry]) -> (r: String)
    ensures
        r@ == rendered(todos(list@)),
{
    if list.len() == 0 {
        return owned("(todo list is empty)");
    }
    let mut out = String::new();
    let mut i: usize = 0;
    while i < list.len()
        invariant
            i <= list@.len() <= usize::MAX,
            out@ == todo_lines(todos(list@), i as int),
        decreases list.len() - i,
    {
        let mut line = owned(list[i].status.glyph());
        line.append(" ");
        line.append(dec_text(i as u64 + 1).as_str());
        line.append(" ");
        line.append(list[i].priority.as_str());
        line.append(" — ");
        line.append(list[i].content.as_str());
        line.append("\n");
        out.append(line.as_str());
        i = i + 1;
    }
    out
}

/// The instruction that a restart injects.
pub open spec fn restart_instruction(content: Seq<char>) -> Seq<char> {
    "[Context restarted from file — prior history was backed up to /tmp.]\n---BEGIN HANDOFF---\n"@
        + content
        + "\n---END HANDOFF---\nContinue executing the work described above. Re-establish any needed context from the handoff, check the todo list if relevant, and proceed."@
}

/// The contents of a handoff file, wrapped into an instruction to go on.
pub fn build_restart_instruction(file_content: &str) -> (r: String)
    ensures
        r@ == restart_instruction(file_content@),
{
    let mut out = owned(
        "[Context restarted from file — prior history was backed up to /tmp.]\n---BEGIN HANDOFF---\n",
    );
    out.append(file_content);
    out.append(
        "\n---END HANDOFF---\nContinue executing the work described above. Re-establish any needed context from the handoff, check the todo list if relevant, and proceed.",
    );
    out
}

} // verus!
