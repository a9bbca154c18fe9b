//! The saved form of a conversation: what a dump holds, and what a load reads.
//!
//! Only the messages, the counters, the pending calls, the queued messages and the todo
//! list are saved. Whatever is streamed or measured while the agent runs starts afresh.

use crate::internal_tools::{todos, TodoEntry, TodoStatus, TodoV};
use crate::json::{
    clone_jsons, fields, jsons, lemma_array_view, lemma_key_is, lemma_object_view,
    lemma_same_value_get, lemma_same_value_unreserved, obj3, obj3_v, object_of, push_field,
    text_array, text_array_v, Json, JsonV,
};
use crate::state::{ConversationState, StateV};
use crate::string_set::StringSet;
use crate::text::{owned, same, texts};
use vstd::prelude::*;

verus! {

/// The conversation that has not begun.
pub open spec fn fresh_state() -> StateV {
    StateV {
        messages: Seq::empty(),
        iteration_count: 0,
        pending_tool_calls: Set::empty(),
        pending_messages: Seq::empty(),
        was_interrupted: false,
        todos: Seq::empty(),
        reasoning: Seq::empty(),
        partial: Seq::empty(),
        tool_call_order: Seq::empty(),
        in_flight: false,
        last_usage: None,
        context_window: None,
        hashes: Seq::empty(),
        depth: 0,
        active_system: None,
        surprises: Seq::empty(),
        reminders: Seq::empty(),
        wake_ups: Seq::empty(),
    }
}

/// What of a conversation is saved; the rest as in one that has not begun.
pub open spec fn lasting(s: StateV) -> StateV {
    StateV {
        messages: s.messages,
        iteration_count: s.iteration_count,
        pending_tool_calls: s.pending_tool_calls,
        pending_messages: s.pending_messages,
        was_interrupted: s.was_interrupted,
        todos: s.todos,
        ..fresh_state()
    }
}

// ---- todo entries

/// The saved form of an entry.
pub open spec fn todo_json(t: TodoV) -> JsonV {
    obj3_v(
        "content"@,
        JsonV::Str(t.content),
        "status"@,
        JsonV::Str(t.status.name()),
        "priority"@,
        JsonV::Str(t.priority),
    )
}

/// The status whose word this is.
pub open spec fn status_of_word(w: Seq<char>) -> Option<TodoStatus> {
    if w == "pending"@ {
        Some(TodoStatus::Pending)
    } else if w == "in_progress"@ {
        Some(TodoStatus::InProgress)
    } else if w == "completed"@ {
        Some(TodoStatus::Completed)
    } else {
        None
    }
}

/// The status in a saved entry, as its word or as an object of that one key: pending where
/// there is none.
pub open spec fn saved_status(v: Option<JsonV>) -> Option<TodoStatus> {
    match v {
        None => Some(TodoStatus::Pending),
        Some(JsonV::Str(w)) => status_of_word(w),
        Some(JsonV::Object(o)) => if o.len() == 1 && o[0].1 == JsonV::Null {
            status_of_word(o[0].0)
        } else {
            None
        },
        Some(_) => None,
    }
}

/// The priority in a saved entry: empty where there is none.
pub open spec fn saved_priority(v: Option<JsonV>) -> Option<Seq<char>> {
    match v {
        None => Some(Seq::empty()),
        Some(JsonV::Str(w)) => Some(w),
        Some(_) => None,
    }
}

/// The entry whose saved form this is.
pub open spec fn saved_todo(v: JsonV) -> Option<TodoV> {
    match (v.part_text("content"@, 0), saved_status(v.part("status"@, 1)), saved_priority(
        v.part("priority"@, 2),
    )) {
        (Some(content), Some(status), Some(priority)) => if v.has_parts(1, 3) {
            Some(TodoV { content, status, priority })
        } else {
            None
        },
        _ => None,
    }
}

/// Entries that stand in an array.
pub open spec fn all_todos(a: Seq<JsonV>) -> bool {
    forall|i: int| 0 <= i < a.len() ==> saved_todo(#[trigger] a[i]) is Some
}

/// A list of saved entries; none where there is no list.
pub open spec fn saved_todos(v: Option<JsonV>) -> Option<Seq<TodoV>> {
    match v {
        None => Some(Seq::empty()),
        Some(JsonV::Array(a)) => if all_todos(a) {
            Some(Seq::new(a.len(), |i: int| saved_todo(a[i]).unwrap()))
        } else {
            None
        },
        Some(_) => None,
    }
}

fn read_word(w: &str) -> (r: Option<TodoStatus>)
    ensures
        r == status_of_word(w@),
{
    if same(w, "pending") {
        Some(TodoStatus::Pending)
    } else if same(w, "in_progress") {
        Some(TodoStatus::InProgress)
    } else if same(w, "completed") {
        Some(TodoStatus::Completed)
    } else {
        None
    }
}

fn read_status(v: Option<&Json>) -> (r: Option<TodoStatus>)
    ensures
        ({
            let m = match v {
                Some(j) => Some(j@),
                None => None,
            };
            r == saved_status(m)
        }),
{
    match v {
        None => Some(TodoStatus::Pending),
        Some(Json::Str(w)) => read_word(w.as_str()),
        Some(Json::Object(o)) => {
            proof {
                lemma_object_view(*o);
            }
            if o.len() == 1 {
                match &o[0].1 {
                    Json::Null => read_word(o[0].0.as_str()),
                    _ => None,
                }
            } else {
                None
            }
        },
        Some(_) => None,
    }
}

impl TodoEntry {
    /// The saved form of the entry.
    pub fn to_json(&self) -> (r: Json)
        ensures
            r@ == todo_json(self@),
    {
        obj3(
            "content",
            Json::Str(self.content.clone()),
            "status",
            Json::text(self.status.as_str()),
            "priority",
            Json::Str(self.priority.clone()),
        )
    }

    /// The entry whose saved form is given. Unlike a description from the model it is
    /// taken as it stands: nothing is trimmed, and an unknown status is refused.
    pub fn from_saved(v: &Json) -> (r: Option<TodoEntry>)
        ensures
            match r {
                Some(e) => saved_todo(v@) == Some(e@),
                None => saved_todo(v@) is None,
            },
    {
        if !v.has_parts(1, 3) {
            return None;
        }
        let content = match v.part_text("content", 0) {
            Some(c) => owned(c),
            None => return None,
        };
        let status = match read_status(v.part("status", 1)) {
            Some(s) => s,
            None => return None,
        };
        let priority = match v.part("priority", 2) {
            None => {
                let e = String::new();
                assert(e@ =~= Seq::empty());
                e
            },
            Some(Json::Str(w)) => w.clone(),
            Some(_) => return None,
        };
        Some(TodoEntry { content, status, priority })
    }
}

/// The saved forms of a list of entries.
pub open spec fn todos_json(t: Seq<TodoV>) -> JsonV {
    JsonV::Array(t.map_values(|e: TodoV| todo_json(e)))
}

fn write_todos(v: &Vec<TodoEntry>) -> (r: Json)
    ensures
        r@ == todos_json(todos(v@)),
{
    let mut a: Vec<Json> = Vec::new();
    for i in 0..v.len()
        invariant
            a@.len() == i,
            forall|j: int| 0 <= j < i ==> (#[trigger] a@[j])@ == todo_json(v@[j]@),
    {
        a.push(v[i].to_json());
    }
    let r = Json::array(a);
    assert(r@->Array_0 =~= todos_json(todos(v@))->Array_0);
    r
}

fn read_todos(v: Option<&Json>) -> (r: Option<Vec<TodoEntry>>)
    ensures
        ({
            let m = match v {
                Some(j) => Some(j@),
                None => None,
            };
            match r {
                Some(t) => saved_todos(m) == Some(todos(t@)),
                None => saved_todos(m) is None,
            }
        }),
{
    broadcast use lemma_array_view;

    let mut out: Vec<TodoEntry> = Vec::new();
    assert(todos(out@) =~= Seq::empty());
    match v {
        None => Some(out),
        Some(Json::Array(a)) => {
            for i in 0..a.len()
                invariant
                    v is Some,
                    v.unwrap()@ == JsonV::Array(jsons(a@)),
                    out@.len() == i,
                    forall|j: int|
                        0 <= j < i ==> saved_todo(#[trigger] jsons(a@)[j]) == Some(out@[j]@),
            {
                match TodoEntry::from_saved(&a[i]) {
                    Some(e) => out.push(e),
                    None => {
                        assert(saved_todo(jsons(a@)[i as int]) is None);
                        return None;
                    },
                }
            }
            assert(todos(out@) =~= saved_todos(Some(v.unwrap()@)).unwrap());
            Some(out)
        },
        Some(_) => None,
    }
}

// ---- lists of texts

/// Whether every value of `a` is a text.
pub open spec fn all_texts(a: Seq<JsonV>) -> bool {
    forall|i: int| 0 <= i < a.len() ==> (#[trigger] a[i]) is Str
}

/// A list of texts.
pub open spec fn saved_texts(v: Option<JsonV>) -> Option<Seq<Seq<char>>> {
    match v {
        Some(JsonV::Array(a)) => if all_texts(a) {
            Some(Seq::new(a.len(), |i: int| a[i]->Str_0))
        } else {
            None
        },
        _ => None,
    }
}

fn read_texts(v: Option<&Json>) -> (r: Option<Vec<String>>)
    ensures
        ({
            let m = match v {
                Some(j) => Some(j@),
                None => None,
            };
            match r {
                Some(t) => saved_texts(m) == Some(texts(t@)),
                None => saved_texts(m) is None,
            }
        }),
{
    broadcast use lemma_array_view;

    match v {
        Some(Json::Array(a)) => {
            let mut out: Vec<String> = Vec::new();
            for i in 0..a.len()
                invariant
                    v is Some,
                    v.unwrap()@ == JsonV::Array(jsons(a@)),
                    out@.len() == i,
                    forall|j: int|
                        0 <= j < i ==> (#[trigger] jsons(a@)[j]) == JsonV::Str(out@[j]@),
            {
                match &a[i] {
                    Json::Str(s) => out.push(s.clone()),
                    _ => {
                        assert(!(jsons(a@)[i as int] is Str));
                        return None;
                    },
                }
            }
            assert(texts(out@) =~= saved_texts(Some(v.unwrap()@)).unwrap());
            Some(out)
        },
        _ => None,
    }
}

// ---- the whole

/// The saved form of a conversation, with its pending calls in the order `calls`.
pub open spec fn state_json(s: StateV, calls: Seq<Seq<char>>) -> JsonV {
    JsonV::Object(
        seq![
            ("messages"@, JsonV::Array(s.messages)),
            ("iteration_count"@, JsonV::Int(s.iteration_count as int)),
            ("pending_tool_calls"@, text_array_v(calls)),
            ("pending_messages"@, text_array_v(s.pending_messages)),
            ("was_interrupted"@, JsonV::Bool(s.was_interrupted)),
            ("todos"@, todos_json(s.todos)),
        ],
    )
}

/// A count that fits.
pub open spec fn saved_count(v: Option<JsonV>) -> Option<u32> {
    match v {
        Some(JsonV::Int(n)) => if 0 <= n <= u32::MAX {
            Some(n as u32)
        } else {
            None
        },
        _ => None,
    }
}

/// A list of values, as a reader of values takes them.
pub open spec fn saved_values(v: Option<JsonV>) -> Option<Seq<JsonV>> {
    match v {
        Some(JsonV::Array(a)) => if forall|i: int|
            0 <= i < a.len() ==> (#[trigger] a[i]).converted() is Some {
            Some(Seq::new(a.len(), |i: int| a[i].converted().unwrap()))
        } else {
            None
        },
        _ => None,
    }
}

fn read_values(v: Option<&Json>) -> (r: Option<Vec<Json>>)
    ensures
        ({
            let m = match v {
                Some(j) => Some(j@),
                None => None,
            };
            match r {
                Some(t) => saved_values(m) == Some(jsons(t@)),
                None => saved_values(m) is None,
            }
        }),
{
    broadcast use lemma_array_view;

    match v {
        Some(Json::Array(a)) => {
            let mut out: Vec<Json> = Vec::new();
            for i in 0..a.len()
                invariant
                    v is Some,
                    v.unwrap()@ == JsonV::Array(jsons(a@)),
                    out@.len() == i,
                    forall|j: int|
                        0 <= j < i ==> (#[trigger] jsons(a@)[j]).converted() == Some(out@[j]@),
            {
                match a[i].convert() {
                    Ok(c) => out.push(c),
                    Err(_) => {
                        assert(jsons(a@)[i as int].converted() is None);
                        return None;
                    },
                }
            }
            assert(jsons(out@) =~= saved_values(Some(v.unwrap()@)).unwrap());
            Some(out)
        },
        _ => None,
    }
}

/// The conversation whose saved form this is. All but the todo list must be there.
pub open spec fn saved_state(v: JsonV) -> Option<StateV> {
    match (
        saved_values(v.part("messages"@, 0)),
        saved_count(v.part("iteration_count"@, 1)),
        saved_texts(v.part("pending_tool_calls"@, 2)),
        saved_texts(v.part("pending_messages"@, 3)),
        v.part("was_interrupted"@, 4),
        saved_todos(v.part("todos"@, 5)),
    ) {
        (
            Some(messages),
            Some(iteration_count),
            Some(calls),
            Some(pending_messages),
            Some(JsonV::Bool(was_interrupted)),
            Some(todos),
        ) => if v.has_parts(5, 6) {
            Some(
                StateV {
                    messages,
                    iteration_count,
                    pending_tool_calls: calls.to_set(),
                    pending_messages,
                    was_interrupted,
                    todos,
                    ..fresh_state()
                },
            )
        } else {
            None
        },
        _ => None,
    }
}

fn read_set(v: &Vec<String>) -> (r: StringSet)
    ensures
        r@ == texts(v@).to_set(),
{
    let mut out = StringSet::new();
    assert(texts(v@).take(0).to_set() =~= Set::empty());
    for i in 0..v.len()
        invariant
            out@ == texts(v@).take(i as int).to_set(),
    {
        out.insert(v[i].as_str());
        proof {
            let t = texts(v@);
            assert(t.take(i + 1) =~= t.take(i as int).push(t[i as int]));
            assert(t.take(i + 1).to_set() =~= t.take(i as int).to_set().insert(t[i as int])) by {
                t.take(i as int).lemma_push_to_set_commute(t[i as int]);
            }
        }
    }
    assert(texts(v@).take(v@.len() as int) =~= texts(v@));
    out
}

impl ConversationState {
    /// The saved form of the conversation.
    pub fn to_json(&self) -> (r: Json)
        ensures
            exists|calls: Seq<Seq<char>>|
                calls.no_duplicates() && calls.to_set() == self@.pending_tool_calls && r@
                    == #[trigger] state_json(self@, calls),
    {
        let calls = self.pending_tool_calls.items();
        let mut o: Vec<(String, Json)> = Vec::new();
        assert(fields(o@) =~= Seq::empty());
        push_field(&mut o, "messages", Json::array(clone_jsons(&self.messages)));
        push_field(&mut o, "iteration_count", Json::UInt(self.iteration_count as u64));
        push_field(&mut o, "pending_tool_calls", text_array(calls));
        push_field(&mut o, "pending_messages", text_array(&self.pending_messages));
        push_field(&mut o, "was_interrupted", Json::Bool(self.was_interrupted));
        push_field(&mut o, "todos", write_todos(&self.todos));
        assert(fields(o@) =~= state_json(self@, texts(calls@))->Object_0);
        object_of(o)
    }

    /// The conversation whose saved form is given; what is not saved starts afresh.
    pub fn from_json(v: &Json) -> (r: Option<ConversationState>)
        ensures
            match r {
                Some(s) => saved_state(v@) == Some(s@),
                None => saved_state(v@) is None,
            },
    {
        broadcast use lemma_array_view;

        if !v.has_parts(5, 6) {
            return None;
        }
        let messages = match read_values(v.part("messages", 0)) {
            Some(m) => m,
            None => return None,
        };
        let iteration_count: u32 = match v.part("iteration_count", 1) {
            Some(Json::UInt(n)) => if *n <= 0xffff_ffff {
                *n as u32
            } else {
                return None;
            },
            Some(Json::NegInt(n)) => if 0 <= *n && *n <= 0xffff_ffff {
                *n as u32
            } else {
                return None;
            },
            _ => return None,
        };
        let calls = match read_texts(v.part("pending_tool_calls", 2)) {
            Some(t) => t,
            None => return None,
        };
        let pending_messages = match read_texts(v.part("pending_messages", 3)) {
            Some(t) => t,
            None => return None,
        };
        let was_interrupted = match v.part("was_interrupted", 4) {
            Some(Json::Bool(b)) => *b,
            _ => return None,
        };
        let todos = match read_todos(v.part("todos", 5)) {
            Some(t) => t,
            None => return None,
        };
        let mut s = ConversationState::new();
        s.messages = messages;
        s.iteration_count = iteration_count;
        s.pending_tool_calls = read_set(&calls);
        s.pending_messages = pending_messages;
        s.was_interrupted = was_interrupted;
        s.todos = todos;
        assert(s@ =~= saved_state(v@).unwrap());
        Some(s)
    }
}

// ---- laws

/// Reading back the saved form of an entry gives the entry.
pub proof fn lemma_todo_reads_back(t: TodoV)
    ensures
        saved_todo(todo_json(t)) == Some(t),
{
    reveal_strlit("content");
    reveal_strlit("status");
    reveal_strlit("priority");
    reveal_strlit("pending");
    reveal_strlit("in_progress");
    reveal_strlit("completed");
    let o = todo_json(t)->Object_0;
    assert(o[0].0.len() == 7 && o[1].0.len() == 6 && o[2].0.len() == 8);
    lemma_key_is(o, "content"@, 0, 0);
    lemma_key_is(o, "status"@, 0, 1);
    lemma_key_is(o, "priority"@, 0, 2);
    assert("pending"@.len() == 7 && "in_progress"@.len() == 11 && "completed"@.len() == 9);
}

/// What is saved of a conversation is read back as it was, in whatever order its pending
/// calls were written, where its messages have no reserved key.
pub proof fn lemma_state_reads_back(s: StateV, calls: Seq<Seq<char>>)
    requires
        calls.to_set() == s.pending_tool_calls,
        forall|i: int| 0 <= i < s.messages.len() ==> (#[trigger] s.messages[i]).unreserved(),
    ensures
        saved_state(state_json(s, calls)) == Some(lasting(s)),
{
    reveal_strlit("messages");
    reveal_strlit("iteration_count");
    reveal_strlit("pending_tool_calls");
    reveal_strlit("pending_messages");
    reveal_strlit("was_interrupted");
    reveal_strlit("todos");
    let v = state_json(s, calls);
    let o = v->Object_0;
    assert(o[0].0.len() == 8 && o[1].0.len() == 15 && o[2].0.len() == 18 && o[3].0.len() == 16);
    assert(o[4].0.len() == 15 && o[5].0.len() == 5);
    assert(o[1].0[0] == 'i' && o[4].0[0] == 'w');
    lemma_key_is(o, "messages"@, 0, 0);
    lemma_key_is(o, "iteration_count"@, 0, 1);
    lemma_key_is(o, "pending_tool_calls"@, 0, 2);
    lemma_key_is(o, "pending_messages"@, 0, 3);
    lemma_key_is(o, "was_interrupted"@, 0, 4);
    lemma_key_is(o, "todos"@, 0, 5);
    assert(saved_texts(Some(text_array_v(calls))).unwrap() =~= calls);
    assert(saved_texts(Some(text_array_v(s.pending_messages))).unwrap() =~= s.pending_messages);
    let a = todos_json(s.todos)->Array_0;
    assert forall|i: int| 0 <= i < a.len() implies saved_todo(#[trigger] a[i]) == Some(
        s.todos[i],
    ) by {
        lemma_todo_reads_back(s.todos[i]);
    }
    assert(saved_todos(Some(todos_json(s.todos))).unwrap() =~= s.todos);
    assert(saved_values(Some(JsonV::Array(s.messages))).unwrap() =~= s.messages);
    assert(saved_state(v).unwrap() =~= lasting(s));
}

/// A text is the same as no other.
proof fn lemma_same_texts(t: Seq<Seq<char>>, w: JsonV)
    requires
        text_array_v(t).same_value(w),
    ensures
        saved_texts(Some(w)) == Some(t),
{
    let a = text_array_v(t)->Array_0;
    let b = w->Array_0;
    assert forall|i: int| 0 <= i < b.len() implies #[trigger] b[i] == JsonV::Str(t[i]) by {
        assert(a[i].same_value(b[i]));
    }
    assert(saved_texts(Some(w)).unwrap() =~= t);
}

proof fn lemma_same_todo(t: TodoV, w: JsonV)
    requires
        todo_json(t).same_value(w),
    ensures
        saved_todo(w) == Some(t),
{
    let v = todo_json(t);
    reveal_strlit("content");
    reveal_strlit("status");
    reveal_strlit("priority");
    reveal_strlit("pending");
    reveal_strlit("in_progress");
    reveal_strlit("completed");
    let o = v->Object_0;
    assert(o[0].0.len() == 7 && o[1].0.len() == 6 && o[2].0.len() == 8);
    lemma_key_is(o, "content"@, 0, 0);
    lemma_key_is(o, "status"@, 0, 1);
    lemma_key_is(o, "priority"@, 0, 2);
    lemma_same_value_get(v, w, "content"@);
    lemma_same_value_get(v, w, "status"@);
    lemma_same_value_get(v, w, "priority"@);
    assert("pending"@.len() == 7 && "in_progress"@.len() == 11 && "completed"@.len() == 9);
}

proof fn lemma_same_todos(t: Seq<TodoV>, w: JsonV)
    requires
        todos_json(t).same_value(w),
    ensures
        saved_todos(Some(w)) == Some(t),
{
    let a = todos_json(t)->Array_0;
    let b = w->Array_0;
    assert forall|i: int| 0 <= i < b.len() implies saved_todo(#[trigger] b[i]) == Some(t[i]) by {
        assert(a[i].same_value(b[i]));
        lemma_same_todo(t[i], b[i]);
    }
    assert(saved_todos(Some(w)).unwrap() =~= t);
}

/// What is saved of a conversation is read back from any rewriting of its saved form that
/// changes only the order of entries, such as a file holds: all as it was, and each message
/// the same but for the order of its entries. The messages have no reserved key.
pub proof fn lemma_state_reads_back_from_file(s: StateV, calls: Seq<Seq<char>>, w: JsonV)
    requires
        calls.to_set() == s.pending_tool_calls,
        forall|i: int| 0 <= i < s.messages.len() ==> (#[trigger] s.messages[i]).unreserved(),
        state_json(s, calls).same_value(w),
    ensures
        saved_state(w) is Some,
        ({
            let y = saved_state(w).unwrap();
            &&& y == (StateV { messages: y.messages, ..lasting(s) })
            &&& y.messages.len() == s.messages.len()
            &&& forall|i: int|
                0 <= i < s.messages.len() ==> (#[trigger] s.messages[i]).same_value(y.messages[i])
        }),
{
    reveal_strlit("messages");
    reveal_strlit("iteration_count");
    reveal_strlit("pending_tool_calls");
    reveal_strlit("pending_messages");
    reveal_strlit("was_interrupted");
    reveal_strlit("todos");
    let v = state_json(s, calls);
    let o = v->Object_0;
    assert(o[0].0.len() == 8 && o[1].0.len() == 15 && o[2].0.len() == 18 && o[3].0.len() == 16);
    assert(o[4].0.len() == 15 && o[5].0.len() == 5);
    assert(o[1].0[0] == 'i' && o[4].0[0] == 'w');
    lemma_key_is(o, "messages"@, 0, 0);
    lemma_key_is(o, "iteration_count"@, 0, 1);
    lemma_key_is(o, "pending_tool_calls"@, 0, 2);
    lemma_key_is(o, "pending_messages"@, 0, 3);
    lemma_key_is(o, "was_interrupted"@, 0, 4);
    lemma_key_is(o, "todos"@, 0, 5);
    lemma_same_value_get(v, w, "messages"@);
    lemma_same_value_get(v, w, "iteration_count"@);
    lemma_same_value_get(v, w, "pending_tool_calls"@);
    lemma_same_value_get(v, w, "pending_messages"@);
    lemma_same_value_get(v, w, "was_interrupted"@);
    lemma_same_value_get(v, w, "todos"@);
    lemma_same_texts(calls, w.get("pending_tool_calls"@).unwrap());
    lemma_same_texts(s.pending_messages, w.get("pending_messages"@).unwrap());
    lemma_same_todos(s.todos, w.get("todos"@).unwrap());
    let m = w.get("messages"@).unwrap();
    assert(JsonV::Array(s.messages).same_value(m));
    assert forall|i: int| 0 <= i < s.messages.len() implies (#[trigger] s.messages[i]).same_value(
        m->Array_0[i],
    ) by {}
    let taken = m->Array_0;
    assert forall|i: int| 0 <= i < taken.len() implies (#[trigger] taken[i]).converted() == Some(
        taken[i],
    ) by {
        lemma_same_value_unreserved(s.messages[i], taken[i]);
    }
    assert(saved_values(Some(m)).unwrap() =~= taken);
}

} // verus!
