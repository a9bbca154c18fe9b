//! What the models are told of the parameters of each tool.

use crate::bash_tool::bash_parameters;
use crate::file_tools::{edit_parameters, read_parameters, write_parameters};
use crate::internal_tools::{
    param_v, restart_from_file_def, schedule_wake_up_def, set_context_reminder_def, todo_read_def,
    todo_write_def,
};
use crate::json::{keys_once, lemma_get_entry, lemma_get_none, obj3_v, text_array_v, JsonV};
use crate::mcp::server_parameters;
use crate::notes::{
    create_fixme_parameters, mark_fixme_parameters, record_conclusion_parameters,
};
use crate::search_tools::{glob_parameters, grep_parameters};
use crate::web_fetch::fetch_parameters;
use vstd::prelude::*;

verus! {

/// Whether the schema has a parameter of that name and type.
pub open spec fn takes(schema: JsonV, name: Seq<char>, kind: Seq<char>) -> bool {
    schema.get("properties"@) matches Some(p) && p.get(name) matches Some(q) && q.get("type"@)
        == Some(JsonV::Str(kind))
}

/// Whether the schema requires a parameter of that name.
pub open spec fn requires_one(schema: JsonV, name: Seq<char>) -> bool {
    schema.get("required"@) matches Some(JsonV::Array(a)) && a.contains(JsonV::Str(name))
}

/// How many parameters the schema has.
pub open spec fn arity(schema: JsonV) -> nat {
    match schema.get("properties"@) {
        Some(JsonV::Object(o)) => o.len(),
        _ => 0,
    }
}

/// How many parameters the schema requires.
pub open spec fn needed(schema: JsonV) -> nat {
    match schema.get("required"@) {
        Some(JsonV::Array(a)) => a.len(),
        _ => 0,
    }
}

proof fn lemma_schema(properties: JsonV, required: JsonV)
    ensures
        ({
            let v = obj3_v(
                "type"@,
                JsonV::Str("object"@),
                "properties"@,
                properties,
                "required"@,
                required,
            );
            v.get("properties"@) == Some(properties) && v.get("required"@) == Some(required)
        }),
{
    reveal_strlit("type");
    reveal_strlit("properties");
    reveal_strlit("required");
    let v = obj3_v(
        "type"@,
        JsonV::Str("object"@),
        "properties"@,
        properties,
        "required"@,
        required,
    );
    let o = v->Object_0;
    assert(o[0].0.len() == 4 && o[1].0.len() == 10 && o[2].0.len() == 8);
    lemma_get_entry(o, 1);
    lemma_get_entry(o, 2);
}

proof fn lemma_open_schema(properties: JsonV)
    ensures
        ({
            let v = crate::json::obj2_v(
                "type"@,
                JsonV::Str("object"@),
                "properties"@,
                properties,
            );
            v.get("properties"@) == Some(properties) && v.get("required"@) is None
        }),
{
    reveal_strlit("type");
    reveal_strlit("properties");
    reveal_strlit("required");
    assert("required"@.len() == 8);
    let v = crate::json::obj2_v("type"@, JsonV::Str("object"@), "properties"@, properties);
    let o = v->Object_0;
    assert(o[0].0.len() == 4 && o[1].0.len() == 10);
    lemma_get_entry(o, 1);
    lemma_get_none(o, "required"@);
}

proof fn lemma_param(kind: Seq<char>, description: Seq<char>)
    ensures
        param_v(kind, description).get("type"@) == Some(JsonV::Str(kind)),
{
    reveal_strlit("type");
    reveal_strlit("description");
    let o = param_v(kind, description)->Object_0;
    assert(o[0].0.len() == 4 && o[1].0.len() == 11);
    lemma_get_entry(o, 0);
}

proof fn lemma_all_params()
    ensures
        forall|kind: Seq<char>, description: Seq<char>| #[trigger]
            param_v(kind, description).get("type"@) == Some(JsonV::Str(kind)),
{
    assert forall|kind: Seq<char>, description: Seq<char>| #[trigger]
        param_v(kind, description).get("type"@) == Some(JsonV::Str(kind)) by {
        lemma_param(kind, description);
    }
}

proof fn lemma_listed(s: Seq<Seq<char>>)
    ensures
        text_array_v(s) matches JsonV::Array(a) && a.len() == s.len() && forall|i: int|
            0 <= i < s.len() ==> a.contains(JsonV::Str(#[trigger] s[i])),
{
    let a = text_array_v(s)->Array_0;
    assert forall|i: int| 0 <= i < s.len() implies a.contains(JsonV::Str(#[trigger] s[i])) by {
        assert(a[i] == JsonV::Str(s[i]));
    }
}

/// A command may be run with a timeout and in a directory.
pub proof fn lemma_bash_schema()
    ensures
        ({
            let s = bash_parameters();
            &&& takes(s, "command"@, "string"@) && requires_one(s, "command"@)
            &&& takes(s, "timeout"@, "integer"@) && takes(s, "working_dir"@, "string"@)
            &&& arity(s) == 3 && needed(s) == 1
        }),
{
    let s = bash_parameters();
    let o = s->Object_0;
    lemma_schema(o[1].1, o[2].1);
    lemma_all_params();
    reveal_strlit("command");
    reveal_strlit("timeout");
    reveal_strlit("working_dir");
    let p = o[1].1->Object_0;
    assert(p[0].0.len() == 7 && p[1].0.len() == 7 && p[2].0.len() == 11);
    assert(p[0].0[0] == 'c' && p[1].0[0] == 't');
    assert(keys_once(p));
    lemma_get_entry(p, 0);
    lemma_get_entry(p, 1);
    lemma_get_entry(p, 2);
    let r = seq!["command"@];
    lemma_listed(r);
    assert(r[0] == "command"@);
}

/// A file is read by its path, from a line on and so many lines.
pub proof fn lemma_read_schema()
    ensures
        ({
            let s = read_parameters();
            &&& takes(s, "file_path"@, "string"@) && requires_one(s, "file_path"@)
            &&& takes(s, "offset"@, "integer"@) && takes(s, "limit"@, "integer"@)
            &&& arity(s) == 3 && needed(s) == 1
        }),
{
    let s = read_parameters();
    let o = s->Object_0;
    lemma_schema(o[1].1, o[2].1);
    lemma_all_params();
    reveal_strlit("file_path");
    reveal_strlit("offset");
    reveal_strlit("limit");
    let p = o[1].1->Object_0;
    assert(p[0].0.len() == 9 && p[1].0.len() == 6 && p[2].0.len() == 5);
    assert(keys_once(p));
    lemma_get_entry(p, 0);
    lemma_get_entry(p, 1);
    lemma_get_entry(p, 2);
    let r = seq!["file_path"@];
    lemma_listed(r);
    assert(r[0] == "file_path"@);
}

/// A file is written by its path and its content.
pub proof fn lemma_write_schema()
    ensures
        ({
            let s = write_parameters();
            &&& takes(s, "file_path"@, "string"@) && requires_one(s, "file_path"@)
            &&& takes(s, "content"@, "string"@) && requires_one(s, "content"@)
            &&& arity(s) == 2 && needed(s) == 2
        }),
{
    let s = write_parameters();
    let o = s->Object_0;
    lemma_schema(o[1].1, o[2].1);
    lemma_all_params();
    reveal_strlit("file_path");
    reveal_strlit("content");
    let p = o[1].1->Object_0;
    assert(p[0].0.len() == 9 && p[1].0.len() == 7);
    assert(keys_once(p));
    lemma_get_entry(p, 0);
    lemma_get_entry(p, 1);
    let r = seq!["file_path"@, "content"@];
    lemma_listed(r);
    assert(r[0] == "file_path"@ && r[1] == "content"@);
}

/// A file is edited by its path, what to find and what to put there.
pub proof fn lemma_edit_schema()
    ensures
        ({
            let s = edit_parameters();
            &&& takes(s, "file_path"@, "string"@) && requires_one(s, "file_path"@)
            &&& takes(s, "old_content"@, "string"@) && requires_one(s, "old_content"@)
            &&& takes(s, "new_content"@, "string"@) && requires_one(s, "new_content"@)
            &&& arity(s) == 3 && needed(s) == 3
        }),
{
    let s = edit_parameters();
    let o = s->Object_0;
    lemma_schema(o[1].1, o[2].1);
    lemma_all_params();
    reveal_strlit("file_path");
    reveal_strlit("old_content");
    reveal_strlit("new_content");
    let p = o[1].1->Object_0;
    assert(p[0].0.len() == 9 && p[1].0.len() == 11 && p[2].0.len() == 11);
    assert(p[1].0[0] == 'o' && p[2].0[0] == 'n');
    assert(keys_once(p));
    lemma_get_entry(p, 0);
    lemma_get_entry(p, 1);
    lemma_get_entry(p, 2);
    let r = seq!["file_path"@, "old_content"@, "new_content"@];
    lemma_listed(r);
    assert(r[0] == "file_path"@ && r[1] == "old_content"@ && r[2] == "new_content"@);
}

/// A search takes a pattern and a directory; one for lines requires the pattern.
pub proof fn lemma_search_schemas()
    ensures
        takes(glob_parameters(), "pattern"@, "string"@),
        takes(glob_parameters(), "path"@, "string"@),
        arity(glob_parameters()) == 2 && needed(glob_parameters()) == 0,
        takes(grep_parameters(), "pattern"@, "string"@),
        takes(grep_parameters(), "path"@, "string"@),
        requires_one(grep_parameters(), "pattern"@),
        arity(grep_parameters()) == 2 && needed(grep_parameters()) == 1,
{
    lemma_all_params();
    reveal_strlit("pattern");
    reveal_strlit("path");
    let o = glob_parameters()->Object_0;
    lemma_open_schema(o[1].1);
    let p = o[1].1->Object_0;
    assert(p[0].0.len() == 7 && p[1].0.len() == 4);
    assert(keys_once(p));
    lemma_get_entry(p, 0);
    lemma_get_entry(p, 1);
    let q = grep_parameters()->Object_0;
    lemma_schema(q[1].1, q[2].1);
    let t = q[1].1->Object_0;
    assert(t[0].0.len() == 7 && t[1].0.len() == 4);
    assert(keys_once(t));
    lemma_get_entry(t, 0);
    lemma_get_entry(t, 1);
    let r = seq!["pattern"@];
    lemma_listed(r);
    assert(r[0] == "pattern"@);
}

/// A page is fetched by its address, into a format and with a timeout of up to two minutes.
pub proof fn lemma_fetch_schema()
    ensures
        ({
            let s = fetch_parameters();
            &&& takes(s, "url"@, "string"@) && requires_one(s, "url"@)
            &&& takes(s, "format"@, "string"@) && takes(s, "timeout"@, "number"@)
            &&& arity(s) == 3 && needed(s) == 1
        }),
{
    let s = fetch_parameters();
    let o = s->Object_0;
    lemma_schema(o[1].1, o[2].1);
    lemma_all_params();
    reveal_strlit("url");
    reveal_strlit("format");
    reveal_strlit("timeout");
    let p = o[1].1->Object_0;
    assert(p[0].0.len() == 3 && p[1].0.len() == 6 && p[2].0.len() == 7);
    assert(keys_once(p));
    lemma_get_entry(p, 0);
    lemma_get_entry(p, 1);
    lemma_get_entry(p, 2);
    reveal_strlit("type");
    reveal_strlit("enum");
    reveal_strlit("default");
    reveal_strlit("description");
    reveal_strlit("minimum");
    reveal_strlit("maximum");
    let f = p[1].1->Object_0;
    assert(f[0].0.len() == 4 && f[1].0.len() == 4 && f[2].0.len() == 7 && f[3].0.len() == 11);
    assert(f[0].0[0] == 't' && f[1].0[0] == 'e');
    assert(keys_once(f));
    lemma_get_entry(f, 0);
    let t = p[2].1->Object_0;
    assert(t[0].0.len() == 4 && t[1].0.len() == 7 && t[2].0.len() == 7 && t[3].0.len() == 11);
    assert(t[1].0[1] == 'i' && t[2].0[1] == 'a');
    assert(keys_once(t));
    lemma_get_entry(t, 0);
    let r = seq!["url"@];
    lemma_listed(r);
    assert(r[0] == "url"@);
}

/// Notes are added by their text, and marked by their id.
pub proof fn lemma_note_schemas()
    ensures
        takes(create_fixme_parameters(), "phrase"@, "string"@),
        requires_one(create_fixme_parameters(), "phrase"@),
        takes(mark_fixme_parameters(), "id"@, "string"@),
        takes(mark_fixme_parameters(), "done"@, "boolean"@),
        requires_one(mark_fixme_parameters(), "id"@),
        requires_one(mark_fixme_parameters(), "done"@),
        takes(record_conclusion_parameters(), "text"@, "string"@),
        requires_one(record_conclusion_parameters(), "text"@),
{
    lemma_all_params();
    let o = create_fixme_parameters()->Object_0;
    lemma_schema(o[1].1, o[2].1);
    lemma_get_entry(o[1].1->Object_0, 0);
    let r = seq!["phrase"@];
    lemma_listed(r);
    assert(r[0] == "phrase"@);
    let q = mark_fixme_parameters()->Object_0;
    lemma_schema(q[1].1, q[2].1);
    reveal_strlit("id");
    reveal_strlit("done");
    let p = q[1].1->Object_0;
    assert(p[0].0.len() == 2 && p[1].0.len() == 4);
    lemma_get_entry(p, 0);
    lemma_get_entry(p, 1);
    let t = seq!["id"@, "done"@];
    lemma_listed(t);
    assert(t[0] == "id"@ && t[1] == "done"@);
    let c = record_conclusion_parameters()->Object_0;
    lemma_schema(c[1].1, c[2].1);
    lemma_get_entry(c[1].1->Object_0, 0);
    let x = seq!["text"@];
    lemma_listed(x);
    assert(x[0] == "text"@);
}

/// Whether a definition is that of a tool with the name, with parameters as `s` has them.
pub open spec fn defines(def: JsonV, name: Seq<char>, s: JsonV) -> bool {
    def.get("function"@) matches Some(f) && f.get("name"@) == Some(JsonV::Str(name)) && f.get(
        "parameters"@,
    ) == Some(s)
}

proof fn lemma_defined(name: Seq<char>, description: Seq<char>, s: JsonV)
    ensures
        defines(crate::internal_tools::tool_def_v(name, description, s), name, s),
{
    reveal_strlit("type");
    reveal_strlit("function");
    reveal_strlit("name");
    reveal_strlit("description");
    reveal_strlit("parameters");
    let o = crate::internal_tools::tool_def_v(name, description, s)->Object_0;
    assert(o[0].0.len() == 4 && o[1].0.len() == 8);
    lemma_get_entry(o, 1);
    let f = o[1].1->Object_0;
    assert(f[0].0.len() == 4 && f[1].0.len() == 11 && f[2].0.len() == 10);
    lemma_get_entry(f, 0);
    lemma_get_entry(f, 2);
}

/// The agent's own tools are offered under the names by which it handles them, with the
/// parameters that it reads.
pub proof fn lemma_own_schemas()
    ensures
        exists|s: JsonV|
            #[trigger] defines(todo_write_def(), "todo_write"@, s) && takes(s, "todos"@, "array"@)
                && requires_one(s, "todos"@),
        exists|s: JsonV| #[trigger] defines(todo_read_def(), "todo_read"@, s) && arity(s) == 0,
        exists|s: JsonV|
            #[trigger] defines(restart_from_file_def(), "restart_from_file"@, s) && takes(
                s,
                "filename"@,
                "string"@,
            ) && requires_one(s, "filename"@),
        exists|s: JsonV|
            #[trigger] defines(set_context_reminder_def(), "set_context_reminder"@, s) && takes(
                s,
                "threshold_tokens"@,
                "number"@,
            ) && takes(s, "message"@, "string"@) && requires_one(s, "threshold_tokens"@)
                && requires_one(s, "message"@),
        exists|s: JsonV|
            #[trigger] defines(schedule_wake_up_def(), "schedule_wake_up"@, s) && takes(
                s,
                "delay_seconds"@,
                "number"@,
            ) && takes(s, "message"@, "string"@) && takes(s, "interval_seconds"@, "number"@)
                && requires_one(s, "delay_seconds"@) && requires_one(s, "message"@) && needed(s)
                == 2,
{
    lemma_all_params();
    lemma_own_list_schemas();
    let c = restart_from_file_def()->Object_0[1].1->Object_0[2].1;
    let n = c->Object_0;
    lemma_defined("restart_from_file"@, restart_from_file_def()->Object_0[1].1->Object_0[1].1->Str_0, c);
    lemma_schema(n[1].1, n[2].1);
    lemma_get_entry(n[1].1->Object_0, 0);
    let f = seq!["filename"@];
    lemma_listed(f);
    assert(f[0] == "filename"@);
    assert(defines(restart_from_file_def(), "restart_from_file"@, c));
    lemma_own_timed_schemas();
}

proof fn lemma_own_list_schemas()
    ensures
        exists|s: JsonV|
            #[trigger] defines(todo_write_def(), "todo_write"@, s) && takes(s, "todos"@, "array"@)
                && requires_one(s, "todos"@),
        exists|s: JsonV| #[trigger] defines(todo_read_def(), "todo_read"@, s) && arity(s) == 0,
{
    let w = todo_write_def()->Object_0[1].1->Object_0[2].1;
    let o = w->Object_0;
    lemma_defined("todo_write"@, todo_write_def()->Object_0[1].1->Object_0[1].1->Str_0, w);
    lemma_schema(o[1].1, o[2].1);
    lemma_get_entry(o[1].1->Object_0, 0);
    reveal_strlit("type");
    reveal_strlit("description");
    reveal_strlit("items");
    let t = o[1].1->Object_0[0].1->Object_0;
    assert(t[0].0.len() == 4 && t[1].0.len() == 11 && t[2].0.len() == 5);
    lemma_get_entry(t, 0);
    let r = seq!["todos"@];
    lemma_listed(r);
    assert(r[0] == "todos"@);
    assert(defines(todo_write_def(), "todo_write"@, w));
    let d = todo_read_def()->Object_0[1].1->Object_0[2].1;
    lemma_defined("todo_read"@, todo_read_def()->Object_0[1].1->Object_0[1].1->Str_0, d);
    lemma_open_schema(d->Object_0[1].1);
    assert(defines(todo_read_def(), "todo_read"@, d));
}

proof fn lemma_own_timed_schemas()
    ensures
        exists|s: JsonV|
            #[trigger] defines(set_context_reminder_def(), "set_context_reminder"@, s) && takes(
                s,
                "threshold_tokens"@,
                "number"@,
            ) && takes(s, "message"@, "string"@) && requires_one(s, "threshold_tokens"@)
                && requires_one(s, "message"@),
        exists|s: JsonV|
            #[trigger] defines(schedule_wake_up_def(), "schedule_wake_up"@, s) && takes(
                s,
                "delay_seconds"@,
                "number"@,
            ) && takes(s, "message"@, "string"@) && takes(s, "interval_seconds"@, "number"@)
                && requires_one(s, "delay_seconds"@) && requires_one(s, "message"@) && needed(s)
                == 2,
{
    lemma_all_params();
    reveal_strlit("threshold_tokens");
    reveal_strlit("message");
    reveal_strlit("delay_seconds");
    reveal_strlit("interval_seconds");
    let c = set_context_reminder_def()->Object_0[1].1->Object_0[2].1;
    let n = c->Object_0;
    lemma_defined(
        "set_context_reminder"@,
        set_context_reminder_def()->Object_0[1].1->Object_0[1].1->Str_0,
        c,
    );
    lemma_schema(n[1].1, n[2].1);
    let p = n[1].1->Object_0;
    assert(p[0].0.len() == 16 && p[1].0.len() == 7);
    lemma_get_entry(p, 0);
    lemma_get_entry(p, 1);
    let r = seq!["threshold_tokens"@, "message"@];
    lemma_listed(r);
    assert(r[0] == "threshold_tokens"@ && r[1] == "message"@);
    assert(defines(set_context_reminder_def(), "set_context_reminder"@, c));
    let d = schedule_wake_up_def()->Object_0[1].1->Object_0[2].1;
    let m = d->Object_0;
    lemma_defined(
        "schedule_wake_up"@,
        schedule_wake_up_def()->Object_0[1].1->Object_0[1].1->Str_0,
        d,
    );
    lemma_schema(m[1].1, m[2].1);
    let q = m[1].1->Object_0;
    assert(q[0].0.len() == 13 && q[1].0.len() == 7 && q[2].0.len() == 16);
    lemma_get_entry(q, 0);
    lemma_get_entry(q, 1);
    lemma_get_entry(q, 2);
    let t = seq!["delay_seconds"@, "message"@];
    lemma_listed(t);
    assert(t[0] == "delay_seconds"@ && t[1] == "message"@);
    assert(defines(schedule_wake_up_def(), "schedule_wake_up"@, d));
}

/// A tool for a server takes the server's name, and requires it where it has to.
pub proof fn lemma_server_schema(description: Seq<char>, required: bool)
    ensures
        takes(server_parameters(description, required), "server_name"@, "string"@),
        requires_one(server_parameters(description, required), "server_name"@) == required,
{
    lemma_all_params();
    reveal_strlit("type");
    reveal_strlit("properties");
    reveal_strlit("required");
    reveal_strlit("additionalProperties");
    assert("type"@.len() == 4 && "properties"@.len() == 10 && "required"@.len() == 8);
    assert("additionalProperties"@.len() == 20);
    let o = server_parameters(description, required)->Object_0;
    assert(keys_once(o));
    lemma_get_entry(o, 1);
    lemma_get_entry(o[1].1->Object_0, 0);
    if required {
        lemma_get_entry(o, 2);
        let r = seq!["server_name"@];
        lemma_listed(r);
        assert(r[0] == "server_name"@);
    } else {
        lemma_get_none(o, "required"@);
    }
}

} // verus!
