//! The transient todo list on its own.
//!
//! The list lives in the conversation state: it is saved and restored with it, and
//! `todo_write` / `todo_read` never reach a tool runner.

pub use crate::internal_tools::{render_todos, TodoEntry, TodoStatus};

use crate::internal_tools::{todo_read_def, todo_read_tool, todo_write_def, todo_write_tool};
use crate::json::Json;
use crate::text::same;
use vstd::prelude::*;

verus! {

/// Whether `name` is one of the two todo tools.
pub fn is_internal_tool(name: &str) -> (r: bool)
    ensures
        r == (name@ == "todo_write"@ || name@ == "todo_read"@),
{
    same(name, "todo_write") || same(name, "todo_read")
}

/// The definitions of the two todo tools.
pub fn internal_tool_defs() -> (r: Vec<Json>)
    ensures
        r@.len() == 2,
        r@[0]@ == todo_write_def(),
        r@[1]@ == todo_read_def(),
{
    vec![todo_write_tool(), todo_read_tool()]
}

} // verus!
