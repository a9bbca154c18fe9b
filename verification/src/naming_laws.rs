//! How actors, kinds of messages and tasks are named.

use crate::agent::AgentActor;
use crate::internal_tools::{status_named, TodoStatus};
use crate::json::{keys_once, lemma_get_entry, JsonV};
use crate::llm_actor::{llm_announcement, LlmActor};
use crate::message::UiMessageType;
use crate::persistence::{persistence_announcement, PersistenceActor};
use crate::schema::ToolDefinition;
use crate::text::dec;
use crate::text_laws::lemma_numerals_differ;
use vstd::prelude::*;

verus! {

proof fn lemma_behind(p: Seq<char>, a: Seq<char>, b: Seq<char>)
    requires
        p + a == p + b,
    ensures
        a == b,
{
    assert((p + a).skip(p.len() as int) =~= a);
    assert((p + b).skip(p.len() as int) =~= b);
}

/// An actor is named by what it is and by its number; no two have the same name.
pub proof fn lemma_actor_names(
    a: &AgentActor,
    b: &AgentActor,
    m: &LlmActor,
    n: &LlmActor,
    p: &PersistenceActor,
    q: &PersistenceActor,
)
    ensures
        a.name() == b.name() ==> a.index == b.index,
        m.name() == n.name() ==> m.index == n.index,
        p.name() == q.name() ==> p.index == q.index,
        a.name() != m.name() && a.name() != p.name() && m.name() != p.name(),
{
    reveal_strlit("gladiator-agent-");
    reveal_strlit("gladiator-llm-");
    reveal_strlit("gladiator-persistence-");
    if a.name() == b.name() {
        lemma_behind("gladiator-agent-"@, dec(a.index as int), dec(b.index as int));
        lemma_numerals_differ(a.index as int, b.index as int);
    }
    if m.name() == n.name() {
        lemma_behind("gladiator-llm-"@, dec(m.index as int), dec(n.index as int));
        lemma_numerals_differ(m.index as int, n.index as int);
    }
    if p.name() == q.name() {
        lemma_behind("gladiator-persistence-"@, dec(p.index as int), dec(q.index as int));
        lemma_numerals_differ(p.index as int, q.index as int);
    }
    assert(a.name()[10] == 'a' && m.name()[10] == 'l' && p.name()[10] == 'p');
}

/// The model's actor listens to what is asked of it and to commands, and speaks of its output, its
/// stream, its statistics and its tool calls.
pub proof fn lemma_model_listens(a: &LlmActor, t: Seq<char>)
    ensures
        llm_announcement(a).id == a.name(),
        llm_announcement(a).subscriptions.contains(t) <==> t == a.input_topic@ || t
            == a.control_topic@,
        llm_announcement(a).publications.contains(t) <==> t == a.output_topic@ || t
            == a.stream_topic@ || t == a.stats_topic@ || t == a.tool_calls_topic@,
{
    let s = llm_announcement(a).subscriptions;
    let p = llm_announcement(a).publications;
    assert(s[0] == a.input_topic@ && s[1] == a.control_topic@);
    assert(p[0] == a.output_topic@ && p[1] == a.stream_topic@ && p[2] == a.stats_topic@ && p[3]
        == a.tool_calls_topic@);
}

/// The actor that keeps states listens to commands and to states, and speaks of its answers and
/// to the agents.
pub proof fn lemma_keeper_listens(a: &PersistenceActor, t: Seq<char>)
    ensures
        persistence_announcement(a).id == a.name(),
        persistence_announcement(a).subscriptions.contains(t) <==> t == a.command_topic@ || t
            == a.state_topic@,
        persistence_announcement(a).publications.contains(t) <==> t == a.response_topic@ || t
            == a.state_control_topic@,
{
    let s = persistence_announcement(a).subscriptions;
    let p = persistence_announcement(a).publications;
    assert(s[0] == a.command_topic@ && s[1] == a.state_topic@);
    assert(p[0] == a.response_topic@ && p[1] == a.state_control_topic@);
}

/// The word for how far a task is names just that, and so does its mark; a task of which nothing
/// is said is yet to be done.
pub proof fn lemma_task_words(s: TodoStatus, t: TodoStatus)
    ensures
        status_named(s.name()) == s,
        s.name() == t.name() ==> s == t,
        s.mark() == t.mark() ==> s == t,
        s.mark().len() == 3,
        status_named(Seq::empty()) == TodoStatus::Pending,
{
    reveal_strlit("pending");
    reveal_strlit("in_progress");
    reveal_strlit("in-progress");
    reveal_strlit("completed");
    reveal_strlit("done");
    reveal_strlit("finished");
    reveal_strlit("started");
    reveal_strlit("active");
    reveal_strlit("[ ]");
    reveal_strlit("[~]");
    reveal_strlit("[x]");
    assert("pending"@.len() == 7 && "in_progress"@.len() == 11 && "completed"@.len() == 9);
    assert("in-progress"@[2] == '-' && "in_progress"@[2] == '_');
    assert("done"@.len() == 4 && "finished"@.len() == 8 && "started"@.len() == 7 && "active"@.len()
        == 6 && "in-progress"@.len() == 11);
    assert("started"@[0] == 's' && "pending"@[0] == 'p');
    assert("[ ]"@[1] == ' ' && "[~]"@[1] == '~' && "[x]"@[1] == 'x');
}

/// Each kind of message travels under a name of its own.
pub proof fn lemma_kinds_differ(s: UiMessageType, t: UiMessageType)
    requires
        s.name() == t.name(),
    ensures
        s == t,
{
    reveal_strlit("UserInput");
    reveal_strlit("LlmThinking");
    reveal_strlit("LlmStream");
    reveal_strlit("LlmStreamEnd");
    reveal_strlit("LlmToolCall");
    reveal_strlit("LlmToolResult");
    reveal_strlit("LlmToolCalls");
    reveal_strlit("LlmDump");
    reveal_strlit("Echo");
    reveal_strlit("Log");
    reveal_strlit("Info");
    reveal_strlit("Error");
    reveal_strlit("Warning");
    reveal_strlit("Continue");
    reveal_strlit("Interrupt");
    reveal_strlit("StreamStats");
    assert("UserInput"@[0] == 'U' && "LlmStream"@[0] == 'L' && "Interrupt"@[0] == 'I');
    assert("LlmThinking"@[4] == 'h' && "LlmToolCall"@[4] == 'o' && "StreamStats"@[0] == 'S');
    assert("LlmStreamEnd"@[3] == 'S' && "LlmToolCalls"@[3] == 'T');
    assert("LlmDump"@[0] == 'L' && "Warning"@[0] == 'W' && "Echo"@[0] == 'E' && "Info"@[0] == 'I');
    assert("LlmThinking"@[0] == 'L' && "LlmToolCall"@[0] == 'L');
    assert("UserInput"@.len() == 9 && "LlmThinking"@.len() == 11 && "LlmStream"@.len() == 9
        && "LlmStreamEnd"@.len() == 12 && "LlmToolCall"@.len() == 11 && "LlmToolResult"@.len() == 13
        && "LlmToolCalls"@.len() == 12 && "LlmDump"@.len() == 7 && "Echo"@.len() == 4
        && "Log"@.len() == 3 && "Info"@.len() == 4 && "Error"@.len() == 5 && "Warning"@.len() == 7
        && "Continue"@.len() == 8 && "Interrupt"@.len() == 9 && "StreamStats"@.len() == 11);
}

/// A tool is described by its name, what it is for, and what it takes.
pub proof fn lemma_described_tools(d: ToolDefinition)
    ensures
        d.json().get("name"@) == Some(JsonV::Str(d.name@)),
        d.json().get("description"@) == Some(JsonV::Str(d.description@)),
        d.json().get("parameters"@) == Some(d.parameters@),
{
    reveal_strlit("name");
    reveal_strlit("description");
    reveal_strlit("parameters");
    let o = d.json()->Object_0;
    assert(o[0].0.len() == 4 && o[1].0.len() == 11 && o[2].0.len() == 10);
    assert(keys_once(o));
    lemma_get_entry(o, 0);
    lemma_get_entry(o, 1);
    lemma_get_entry(o, 2);
}

} // verus!
