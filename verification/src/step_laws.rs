//! What a step changes, and what it leaves as it was.

use crate::bus::BusRegistry;
use crate::doctor_laws::{lemma_other_results_stay, lost};
use crate::json::{jsons, Json, JsonV};
use crate::llm_error::LlmError;
use crate::llm_stream::{StreamRun, StreamSignal};
use crate::mcp::{McpServerState, StatusV, StderrLogRing};
use crate::notes::{FixmeEntry, FixmeStore};
use crate::outgoing_doctor::{doctor_messages, doctored, orphans, RepairRecord};
use crate::patterns::glob_matches;
use crate::persistence::{FileToWrite, PersistenceActor, PersistenceStep};
use crate::search_laws::{holds_hits, lemma_every_match_is_found};
use crate::search_tools::{GlobSearch, GrepSearch};
use crate::state::ConversationState;
use crate::state_laws::{lemma_rest_is_sent, lemma_system_is_sent_first};
use crate::stream_laws::{is_call, lemma_calls_keep_their_own};
use crate::string_map::StringMap;
use crate::text::{lines_from, texts};
use crate::tool::{ToolRegistry, ToolSyntax};
use crate::tool_runtime::ToolRuntime;
use crate::tool_stream::ToolStream;
use crate::transport::{AttemptFailure, Retries};
use crate::turn_laws::lemma_streak_is_the_last_run;
use vstd::prelude::*;

verus! {

// ---- the conversation

/// What is sent to the model is every message, in its place and with all that it holds but the
/// reasoning, behind the system message where there is one.
pub proof fn lemma_messages_are_built(
    s: &ConversationState,
    system: &str,
    r: Vec<Json>,
    i: int,
    k: Seq<char>,
)
    requires
        call_ensures(ConversationState::build_messages_with_system, (s, system), r),
        0 <= i < s@.messages.len(),
        k != "reasoning"@,
    ensures
        system@.len() == 0 ==> r@.len() == s@.messages.len() && r@[i]@.get(k)
            == s@.messages[i].get(k),
        system@.len() > 0 ==> r@.len() == s@.messages.len() + 1 && r@[i + 1]@.get(k)
            == s@.messages[i].get(k) && r@[0]@.get("role"@) == Some(JsonV::Str("system"@))
            && r@[0]@.get("content"@) == Some(JsonV::Str(system@)),
{
    lemma_rest_is_sent(s@, system@, i, k);
    assert(jsons(r@).len() == r@.len());
    if system@.len() > 0 {
        lemma_system_is_sent_first(s@, system@);
        assert(jsons(r@)[0] == r@[0]@);
        assert(jsons(r@)[i + 1] == r@[i + 1]@);
    } else {
        assert(jsons(r@)[i] == r@[i]@);
    }
}

/// The tool calls of a turn are as many as began, each with its own id, name and arguments.
pub proof fn lemma_calls_are_finished(t: &ToolStream, r: Vec<Json>, j: int)
    requires
        call_ensures(ToolStream::finish_all, (t,), r),
        0 <= j < t@.len(),
    ensures
        r@.len() == t@.len(),
        is_call(r@[j]@, t@[j].1.id, t@[j].1.name, t@[j].1.input),
{
    lemma_calls_keep_their_own(t@, j);
    assert(jsons(r@).len() == r@.len());
    assert(jsons(r@)[j] == r@[j]@);
}

/// To record a turn changes nothing but what is kept of the last turns; what comes back is 0 or
/// how many turns at the end are alike.
pub proof fn lemma_turns_are_recorded(r: usize)
    ensures
        forall|s: &mut ConversationState| #[trigger]
            call_ensures(ConversationState::record_turn_and_check_loop, (s,), r) ==> {
                let (before, after) = ((*s)@, (*final(s))@);
                let n = after.hashes.len() as int;
                &&& after == (crate::state::StateV { hashes: after.hashes, ..before })
                &&& r == 0 || (2 <= r <= n && forall|i: int|
                    n - r <= i < n ==> #[trigger] after.hashes[i] == after.hashes[n - 1])
                &&& r != 0 && r < n ==> after.hashes[n - r - 1] != after.hashes[n - 1]
            },
{
    assert forall|s: &mut ConversationState| #[trigger]
        call_ensures(ConversationState::record_turn_and_check_loop, (s,), r) implies {
        let (before, after) = ((*s)@, (*final(s))@);
        let n = after.hashes.len() as int;
        &&& after == (crate::state::StateV { hashes: after.hashes, ..before })
        &&& r == 0 || (2 <= r <= n && forall|i: int|
            n - r <= i < n ==> #[trigger] after.hashes[i] == after.hashes[n - 1])
        &&& r != 0 && r < n ==> after.hashes[n - r - 1] != after.hashes[n - 1]
    } by {
        let after = (*final(s))@;
        if after.hashes.len() > 0 {
            lemma_streak_is_the_last_run(after.hashes);
        }
    }
}

/// One more turn is counted.
pub proof fn lemma_turns_are_counted()
    ensures
        forall|s: &mut ConversationState| #[trigger]
            call_ensures(ConversationState::increment_iteration, (s,), ()) && (*s)@.iteration_count
                < u32::MAX ==> (*final(s))@ == (crate::state::StateV {
                iteration_count: (*final(s))@.iteration_count,
                ..(*s)@
            }) && (*final(s))@.iteration_count == (*s)@.iteration_count + 1,
        forall|s: &mut ConversationState| #[trigger]
            call_ensures(ConversationState::reset_iteration, (s,), ()) ==> (*final(s))@ == (
            crate::state::StateV { iteration_count: 0, ..(*s)@ }),
{
}

/// A message that waits is handed over once, in its turn; the conversation stays as it was.
pub proof fn lemma_waiting_messages(m: String, r: Vec<String>)
    ensures
        forall|s: &mut ConversationState| #[trigger]
            call_ensures(ConversationState::buffer_user_message, (s, m), ()) ==> (
            *final(s))@.pending_messages == (*s)@.pending_messages.push(m@) && (*final(s))@.messages
                == (*s)@.messages,
        forall|s: &mut ConversationState| #[trigger]
            call_ensures(ConversationState::drain_pending_messages, (s,), r) ==> texts(r@) == (
            *s)@.pending_messages && (*final(s))@.pending_messages.len() == 0 && (
            *final(s))@.messages == (*s)@.messages,
{
}

/// What streams in is added at the end, and is given back whole, once.
pub proof fn lemma_pieces_are_kept(chunk: &str, r: Option<String>)
    ensures
        forall|s: &mut ConversationState| #[trigger]
            call_ensures(ConversationState::append_reasoning, (s, chunk), ()) ==> (*final(s))@ == (
            crate::state::StateV { reasoning: (*s)@.reasoning + chunk@, ..(*s)@ }),
        forall|s: &mut ConversationState| #[trigger]
            call_ensures(ConversationState::append_partial_response, (s, chunk), ()) ==> (
            *final(s))@ == (crate::state::StateV { partial: (*s)@.partial + chunk@, ..(*s)@ }),
        forall|s: &mut ConversationState| #[trigger]
            call_ensures(ConversationState::drain_partial_response, (s,), r) ==> {
                &&& (*final(s))@.partial.len() == 0
                &&& r is None <==> (*s)@.partial.len() == 0
                &&& r matches Some(t) ==> t@ == (*s)@.partial
            },
{
}

// ---- repairing a conversation

proof fn lemma_doctored_grows(ms: Seq<JsonV>, i: int, n: int)
    requires
        0 <= i < n <= ms.len(),
        ms[i].get("role"@) == Some(JsonV::Str("tool"@)),
        ms[i].get("tool_call_id"@) matches Some(JsonV::Str(id)) ==> !lost(ms, id),
    ensures
        doctored(ms, orphans(ms, ms.len() as int), n).contains(ms[i]),
    decreases n,
{
    let ids = orphans(ms, ms.len() as int);
    let after = doctored(ms, ids, n);
    if n == i + 1 {
        lemma_other_results_stay(ms, i);
        assert(after[after.len() - 1] == ms[i]);
    } else {
        lemma_doctored_grows(ms, i, n - 1);
        let before = doctored(ms, ids, n - 1);
        let j = choose|j: int| 0 <= j < before.len() && before[j] == ms[i];
        assert(after == before + crate::outgoing_doctor::treated(ms[n - 1], ids));
        assert(after[j] == ms[i]);
    }
}

/// Whatever is repaired in a conversation, each tool result that answers no corrupted call is
/// still there afterwards.
pub proof fn lemma_results_outlive_repairs(r: Vec<RepairRecord>)
    ensures
        forall|ms: &mut Vec<Json>, i: int|
            #![trigger call_ensures(doctor_messages, (ms,), r), (*ms)@[i]]
            call_ensures(doctor_messages, (ms,), r) && 0 <= i < (*ms)@.len() && (*ms)@[i]@.get(
                "role"@,
            ) == Some(JsonV::Str("tool"@)) && ((*ms)@[i]@.get("tool_call_id"@) matches Some(
                JsonV::Str(id),
            ) ==> !lost(jsons((*ms)@), id)) ==> jsons((*final(ms))@).contains((*ms)@[i]@),
{
    assert forall|ms: &mut Vec<Json>, i: int|
        #![trigger call_ensures(doctor_messages, (ms,), r), (*ms)@[i]]
        call_ensures(doctor_messages, (ms,), r) && 0 <= i < (*ms)@.len() && (*ms)@[i]@.get(
            "role"@,
        ) == Some(JsonV::Str("tool"@)) && ((*ms)@[i]@.get("tool_call_id"@) matches Some(
            JsonV::Str(id),
        ) ==> !lost(jsons((*ms)@), id)) implies jsons((*final(ms))@).contains((*ms)@[i]@) by {
        let js = jsons((*ms)@);
        assert(js[i] == (*ms)@[i]@);
        lemma_doctored_grows(js, i, js.len() as int);
    }
}

// ---- searching

/// A file that is searched adds every line that the pattern matches, up to 1000 in all.
pub proof fn lemma_files_are_searched(path: &str, content: &str)
    ensures
        forall|g: &mut GrepSearch| #[trigger]
            call_ensures(GrepSearch::take_file, (g, path, content), ()) && (*g)@.results.len()
                <= 1000 ==> holds_hits(
                (*g)@,
                (*final(g))@,
                path@,
                lines_from(content@, 0),
            ),
{
    assert forall|g: &mut GrepSearch| #[trigger]
        call_ensures(GrepSearch::take_file, (g, path, content), ()) && (*g)@.results.len()
            <= 1000 implies holds_hits(
        (*g)@,
        (*final(g))@,
        path@,
        lines_from(content@, 0),
    ) by {
        lemma_every_match_is_found((*g)@, path@, content@);
    }
}

/// A path that the pattern matches is found, up to 1000 of them; what was found stays. The walk
/// ends only at a path that there is no more room for.
pub proof fn lemma_paths_are_offered(path: &str, r: bool)
    ensures
        forall|g: &mut GlobSearch| #[trigger]
            call_ensures(GlobSearch::offer, (g, path), r) ==> {
                let (before, after) = (texts((*g).results@), texts((*final(g)).results@));
                let hit = glob_matches((*g).pattern@, path@, true, true, false);
                &&& (*final(g)).pattern@ == (*g).pattern@
                &&& (*final(g)).root@ == (*g).root@
                &&& hit && before.len() < 1000 ==> after == before.push(path@)
                &&& !hit || before.len() >= 1000 ==> after == before
                &&& r <==> !hit || before.len() < 1000
            },
{
    assert forall|g: &mut GlobSearch| #[trigger]
        call_ensures(GlobSearch::offer, (g, path), r) implies {
        let (before, after) = (texts((*g).results@), texts((*final(g)).results@));
        let hit = glob_matches((*g).pattern@, path@, true, true, false);
        &&& (*final(g)).pattern@ == (*g).pattern@
        &&& (*final(g)).root@ == (*g).root@
        &&& hit && before.len() < 1000 ==> after == before.push(path@)
        &&& !hit || before.len() >= 1000 ==> after == before
        &&& r <==> !hit || before.len() < 1000
    } by {
        assert(texts((*g).results@).len() == (*g).results@.len());
    }
}

// ---- notes

/// A note that is marked is the one with the id, and nothing else of the list changes; where no
/// note has the id, the list stays and that is told.
pub proof fn lemma_notes_are_marked(id: &str, done: bool, r: Result<(), String>)
    ensures
        forall|s: &mut FixmeStore| #[trigger]
            call_ensures(FixmeStore::mark_done, (s, id, done), r) ==> {
                let (before, after) = ((*s)@, (*final(s))@);
                &&& after.len() == before.len()
                &&& r is Err ==> after == before
                &&& forall|i: int|
                    0 <= i < before.len() ==> (#[trigger] after[i]).id == before[i].id
                        && after[i].phrase == before[i].phrase
                &&& forall|i: int|
                    0 <= i < before.len() && before[i].id != id@ ==> (#[trigger] after[i])
                        == before[i]
            },
{
    assert forall|s: &mut FixmeStore| #[trigger]
        call_ensures(FixmeStore::mark_done, (s, id, done), r) implies {
        let (before, after) = ((*s)@, (*final(s))@);
        &&& after.len() == before.len()
        &&& r is Err ==> after == before
        &&& forall|i: int|
            0 <= i < before.len() ==> (#[trigger] after[i]).id == before[i].id && after[i].phrase
                == before[i].phrase
        &&& forall|i: int|
            0 <= i < before.len() && before[i].id != id@ ==> (#[trigger] after[i]) == before[i]
    } by {
        lemma_fixme_at((*s)@, id@, 0);
    }
}

proof fn lemma_fixme_at(s: Seq<crate::notes::FixmeV>, id: Seq<char>, from: int)
    requires
        0 <= from <= s.len(),
    ensures
        crate::notes::fixme_from(s, id, from) matches Some(i) ==> from <= i < s.len() && s[i].id
            == id,
    decreases s.len() - from,
{
    if from < s.len() && s[from].id != id {
        lemma_fixme_at(s, id, from + 1);
    }
}

/// A new note stands at the end, with its phrase and open.
pub proof fn lemma_notes_are_added(phrase: &str, r: FixmeEntry)
    ensures
        forall|s: &mut FixmeStore| #[trigger]
            call_ensures(FixmeStore::add, (s, phrase), r) ==> (*final(s))@ == (*s)@.push(r@)
                && r@.phrase == phrase@ && !r@.done,
{
}

// ---- the bus and the tools

/// A topic that is made is there, as is every other that was.
pub proof fn lemma_topics_are_made(name: &str, r: bool)
    ensures
        forall|b: &mut BusRegistry| #[trigger]
            call_ensures(BusRegistry::create_topic, (b, name), r) ==> {
                &&& (*final(b))@.topics == (*b)@.topics.insert(name@)
                &&& (*final(b))@.announced == (*b)@.announced
                &&& r <==> !(*b)@.topics.contains(name@)
            },
{
}

/// A tool is taken in where none has its name; what was taken in before stays.
pub proof fn lemma_tools_are_added(tool: ToolSyntax, r: bool)
    ensures
        forall|g: &mut ToolRegistry| #[trigger]
            call_ensures(ToolRegistry::add, (g, tool), r) ==> {
                &&& r ==> (*final(g))@ == (*g)@.push(tool@)
                &&& !r ==> (*final(g))@ == (*g)@
                &&& r ==> forall|i: int| 0 <= i < (*g)@.len() ==> (#[trigger] (*g)@[i]).name
                    != tool@.name
            },
{
}

// ---- servers

/// A server that was started runs with its tools, and its attempts count anew; one that was not
/// is down. Its name, its failures and its log stay.
pub proof fn lemma_servers_start(tools: Option<usize>)
    ensures
        forall|m: &mut McpServerState| #[trigger]
            call_ensures(McpServerState::on_started, (m, tools), ()) ==> {
                let (before, after) = ((*m)@, (*final(m))@);
                &&& after.name == before.name && after.log == before.log && after.failures
                    == before.failures
                &&& tools matches Some(n) ==> after.status == StatusV::Running && after.tool_count
                    == n && after.retry_count == 0
                &&& tools is None ==> after.status == StatusV::Crashed && after.tool_count
                    == before.tool_count
            },
{
}

/// A restart that worked is told and the server runs; one that did not is told with the fault,
/// which is logged, and the server is down.
pub proof fn lemma_restarts(result: Result<usize, &str>, r: Result<String, String>)
    ensures
        forall|m: &mut McpServerState| #[trigger]
            call_ensures(McpServerState::finish_restart, (m, result), r) ==> {
                let (before, after) = ((*m)@, (*final(m))@);
                &&& r is Ok <==> result is Ok
                &&& after.name == before.name
                &&& result matches Ok(n) ==> after.status == StatusV::Running && after.tool_count
                    == n && after.log == before.log
                &&& result matches Err(e) ==> after.status == StatusV::Crashed && after.log.last()
                    == "[manual-restart-failure] "@ + e@
            },
{
}

/// A line of a log stands at its end; the lines before it stay, all but the first where there
/// were 200.
pub proof fn lemma_lines_are_logged(line: String)
    ensures
        forall|g: &mut StderrLogRing| #[trigger]
            call_ensures(StderrLogRing::push, (g, line), ()) ==> {
                let (before, after) = ((*g)@, (*final(g))@);
                &&& after.len() > 0 && after.last() == line@
                &&& before.len() < 200 ==> after == before.push(line@)
                &&& before.len() >= 200 ==> after.drop_last() == before.drop_first()
            },
{
    assert forall|g: &mut StderrLogRing| #[trigger]
        call_ensures(StderrLogRing::push, (g, line), ()) implies {
        let (before, after) = ((*g)@, (*final(g))@);
        &&& after.len() > 0 && after.last() == line@
        &&& before.len() < 200 ==> after == before.push(line@)
        &&& before.len() >= 200 ==> after.drop_last() == before.drop_first()
    } by {
        let before = (*g)@;
        if before.len() >= 200 {
            assert(before.drop_first().push(line@).drop_last() =~= before.drop_first());
        }
    }
}

// ---- attempts and streams

/// An attempt is repeated while attempts are left and the failure may pass, after a wait that
/// then doubles; no attempt is repeated more often than is allowed.
pub proof fn lemma_attempts(f: AttemptFailure, r: Result<u64, LlmError>)
    ensures
        forall|a: &mut Retries| #[trigger]
            call_ensures(Retries::after_failure, (a, f), r) ==> {
                &&& r is Err ==> *final(a) == *a
                &&& r matches Ok(ms) ==> ms == (*a).delay_ms && (*a).attempt < (*a).max_retries && (
                *final(a)).attempt == (*a).attempt + 1 && (*final(a)).max_retries
                    == (*a).max_retries
                &&& r is Ok && 2 * (*a).delay_ms <= u64::MAX ==> (*final(a)).delay_ms == 2 * (
                *a).delay_ms
                &&& f is TimedOut && (*a).attempt < (*a).max_retries ==> r is Ok
                &&& f matches AttemptFailure::Status { status, .. } ==> (*a).attempt < (
                *a).max_retries ==> (r is Ok <==> status == 429 || status >= 500)
            },
{
}

/// A stream that has said nothing for 90 seconds is idle, and what came of it counts; one that
/// ran out of time before is an error.
pub proof fn lemma_late_streams(since_ms: u64, r: Result<(), LlmError>)
    ensures
        forall|s: &mut StreamRun| #[trigger]
            call_ensures(StreamRun::on_timeout, (s, since_ms), r) ==> {
                &&& r is Ok <==> since_ms >= 90_000
                &&& r is Ok ==> (*final(s))@.signal == StreamSignal::Idle
                &&& (*final(s))@.full == (*s)@.full && (*final(s))@.reasoning == (*s)@.reasoning
            },
{
}

/// The state of an agent is written to the file that it was asked for, once, and only where it
/// was asked for.
pub proof fn lemma_states_are_written(p: &PersistenceActor, payload: &Json, r: Option<FileToWrite>)
    ensures
        forall|pending: &mut StringMap| #[trigger]
            call_ensures(PersistenceActor::on_state, (p, pending, payload), r) ==> {
                let agent = payload@.str_or("agent_id"@, ""@);
                &&& r is Some <==> (*pending)@.dom().contains(agent)
                &&& r matches Some(f) ==> f.filename@ == (*pending)@[agent]
                &&& (*final(pending))@ == (*pending)@.remove(agent)
            },
{
}

/// A command names a file and an agent, else it is refused; a save asks that agent for its state
/// and remembers the file, and a load reads the file and leaves what is remembered.
pub proof fn lemma_commands_are_followed(p: &PersistenceActor, payload: &Json, r: PersistenceStep)
    ensures
        forall|pending: &mut StringMap| #[trigger]
            call_ensures(PersistenceActor::on_command, (p, pending, payload), r) ==> {
                let action = payload@.str_or("action"@, ""@);
                let file = payload@.str_or("filename"@, ""@);
                let agent = payload@.str_or("agent_id"@, ""@);
                let named = file.len() > 0 && agent.len() > 0;
                &&& action == "save"@ && named ==> (*final(pending))@ == (*pending)@.insert(
                    agent,
                    file,
                )
                &&& action == "save"@ && named ==> (r matches PersistenceStep::AskForState {
                    agent_id,
                    request,
                } && agent_id@ == agent && request@.topic == p.state_control_topic@)
                &&& action == "load"@ && named ==> (r matches PersistenceStep::ReadFile {
                    agent_id,
                    filename,
                } && agent_id@ == agent && filename@ == file)
                &&& action != "save"@ ==> (*final(pending))@ == (*pending)@
                &&& action != "save"@ && action != "load"@ ==> r is Nothing
                &&& !named && (action == "save"@ || action == "load"@) ==> r is Answer && (
                *final(pending))@ == (*pending)@
            },
{
    reveal_strlit("save");
    reveal_strlit("load");
    assert("save"@[0] != "load"@[0]);
}

/// A tool that is registered is found by its name afterwards.
pub proof fn lemma_tools_are_registered(tool: crate::schema::ToolDefinition, r: usize)
    ensures
        forall|t: &mut ToolRuntime| #[trigger]
            call_ensures(ToolRuntime::register, (t, tool), r) ==> {
                &&& r < (*final(t))@.len()
                &&& (*final(t))@[r as int].name@ == tool.name@
            },
{
    assert forall|t: &mut ToolRuntime| #[trigger]
        call_ensures(ToolRuntime::register, (t, tool), r) implies {
        &&& r < (*final(t))@.len()
        &&& (*final(t))@[r as int].name@ == tool.name@
    } by {
        lemma_tool_at((*final(t))@, tool.name@, 0);
    }
}

proof fn lemma_tool_at(s: Seq<crate::schema::ToolDefinition>, name: Seq<char>, from: int)
    requires
        0 <= from <= s.len(),
    ensures
        crate::tool_runtime::tool_from(s, name, from) matches Some(i) ==> from <= i < s.len()
            && s[i].name@ == name,
    decreases s.len() - from,
{
    if from < s.len() && s[from].name@ != name {
        lemma_tool_at(s, name, from + 1);
    }
}

/// A line that a server wrote is logged with the time and the server's name, and is a warning
/// where it speaks of an error.
pub proof fn lemma_server_lines(time: &str, text: &str, r: bool)
    ensures
        forall|m: &mut McpServerState| #[trigger]
            call_ensures(McpServerState::on_stderr, (m, time, text), r) ==> {
                let (before, after) = ((*m)@, (*final(m))@);
                &&& after.log.last() == "["@ + time@ + "] [mcp:"@ + before.name + ":stderr] "@
                    + text@
                &&& after == (crate::mcp::ServerV { log: after.log, ..before })
                &&& r <==> crate::text::contains(text@, "ERROR"@) || crate::text::contains(
                    text@,
                    "error"@,
                )
            },
{
}

/// A server that is turned off keeps its name, its tools and its log, and so does one that is
/// about to be started again.
pub proof fn lemma_servers_are_kept(r: String)
    ensures
        forall|m: &mut McpServerState| #[trigger]
            call_ensures(McpServerState::disable, (m,), r) ==> {
                let (before, after) = ((*m)@, (*final(m))@);
                &&& after == (crate::mcp::ServerV { status: after.status, ..before })
                &&& after.status is Disabled
                &&& r@ == "Disabled MCP server '"@ + before.name + "'"@
            },
        forall|m: &mut McpServerState| #[trigger]
            call_ensures(McpServerState::hold_back, (m,), ()) ==> {
                let (before, after) = ((*m)@, (*final(m))@);
                &&& after == (crate::mcp::ServerV { status: after.status, ..before })
                &&& after.status is Disabled
            },
        forall|m: &mut McpServerState| #[trigger]
            call_ensures(McpServerState::begin_restart, (m,), ()) ==> {
                let (before, after) = ((*m)@, (*final(m))@);
                &&& after == (crate::mcp::ServerV {
                    status: StatusV::Restarting { attempt: 1 },
                    retry_count: 0,
                    ..before
                })
            },
{
}

} // verus!
