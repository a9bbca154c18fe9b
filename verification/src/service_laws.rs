//! What the bus, the server, the servers of tools and the files hand on.

use crate::actor::AnnouncementV;
use crate::agent::{agent_announcement, push_nonempty, AgentActor};
use crate::bus::{announced_from, announcing, listeners, speakers, topic_of};
use crate::config::McpServerConfig;
use crate::internal_tools::TodoStatus;
use crate::json::{keys_once, lemma_get_entry, JsonV};
use crate::mcp::{
    backoff, call_result, ended_lines, last_lines, last_logs, logged, normalized, offered_tools,
    server_from, status_lines, status_report, ServerV, StatusV, Supervision,
};
use crate::message::MessageV;
use crate::persistence::{loaded_state, saved_document, PersistenceActor};
use crate::saved_state::{lasting, state_json, todo_json, todos_json};
use crate::schema::{tool_choice_v, ToolDefinition};
use crate::server::{
    actor_info, all_topics, joined, last_announced, last_named, unannounced, with_runtime, TopicV,
};
use crate::state::StateV;
use crate::text::{dec, join, texts};
use crate::tool::{result_json, result_of, SyntaxV, ToolActorRunner, ToolResultV};
use crate::tool_runtime::{names_differ, registered, tool_from};
use crate::wire::{execute_json, message_json, ExecuteV};
use vstd::prelude::*;

verus! {

// ---- the bus

/// An announcement stands for its actor, once: it takes the place of an earlier one of the same
/// actor, and leaves those of all others as they are.
pub proof fn lemma_announced(s: Seq<AnnouncementV>, a: AnnouncementV)
    requires
        forall|i: int, j: int| 0 <= i < j < s.len() ==> (#[trigger] s[i]).id != (#[trigger] s[j]).id,
    ensures
        ({
            let t = announcing(s, a);
            let known = exists|i: int| 0 <= i < s.len() && (#[trigger] s[i]).id == a.id;
            &&& t.contains(a)
            &&& t.len() == s.len() + if known {
                0int
            } else {
                1
            }
            &&& forall|i: int|
                0 <= i < s.len() && (#[trigger] s[i]).id != a.id ==> t[i] == s[i]
            &&& forall|i: int| 0 <= i < t.len() && (#[trigger] t[i]).id == a.id ==> t[i] == a
        }),
{
    let t = announcing(s, a);
    lemma_position(s, a.id, 0);
    match announced_from(s, a.id, 0) {
        Some(i) => {
            assert(t[i] == a);
        },
        None => {
            assert(t[s.len() as int] == a);
        },
    }
}

/// An actor is found by its id, at its first announcement.
pub proof fn lemma_position(s: Seq<AnnouncementV>, id: Seq<char>, i: int)
    requires
        0 <= i,
    ensures
        announced_from(s, id, i) matches Some(p) ==> i <= p < s.len() && s[p].id == id && forall|
            q: int,
        |
            i <= q < p ==> (#[trigger] s[q]).id != id,
        announced_from(s, id, i) is None ==> forall|q: int|
            i <= q < s.len() ==> (#[trigger] s[q]).id != id,
    decreases s.len() - i,
{
    if i < s.len() && s[i].id != id {
        lemma_position(s, id, i + 1);
    }
}

/// Those who listen to a topic are the actors that announced to, and those who speak on it
/// likewise, in the order of their announcements.
pub proof fn lemma_topic(s: Seq<AnnouncementV>, t: Seq<char>, a: AnnouncementV)
    ensures
        ({
            let (before, after) = (topic_of(s, t), topic_of(s.push(a), t));
            &&& after.name == t
            &&& after.subscribers == if a.subscriptions.contains(t) {
                before.subscribers.push(a.id)
            } else {
                before.subscribers
            }
            &&& after.publishers == if a.publications.contains(t) {
                before.publishers.push(a.id)
            } else {
                before.publishers
            }
            &&& topic_of(Seq::empty(), t).subscribers.len() == 0
            &&& topic_of(Seq::empty(), t).publishers.len() == 0
        }),
{
    lemma_listeners(s, t, a, s.len() as int);
    assert(s.push(a)[s.len() as int] == a);
}

proof fn lemma_listeners(s: Seq<AnnouncementV>, t: Seq<char>, a: AnnouncementV, n: int)
    requires
        0 <= n <= s.len(),
    ensures
        listeners(s.push(a), t, n) == listeners(s, t, n),
        speakers(s.push(a), t, n) == speakers(s, t, n),
    decreases n,
{
    if n > 0 {
        lemma_listeners(s, t, a, n - 1);
        assert(s.push(a)[n - 1] == s[n - 1]);
    }
}

/// An agent listens to what concerns it and to nothing else: its input, the model's output,
/// stream and tool calls, and the results of tools; commands and statistics where they have a
/// topic.
pub proof fn lemma_agent_listens(a: &AgentActor, t: Seq<char>)
    requires
        t.len() > 0,
    ensures
        agent_announcement(a).subscriptions.contains(t) <==> t == a.input_topic@ || t
            == a.llm_out_topic@ || t == a.llm_stream_topic@ || t == a.llm_tool_calls_topic@ || t
            == a.tool_results_topic@ || t == a.state_control_topic@ || t == a.llm_stats_topic@,
        agent_announcement(a).publications.contains(t) <==> t == a.stream_output_topic@ || t
            == a.llm_in_topic@ || t == a.state_topic@,
        agent_announcement(a).id == "gladiator-agent-"@ + dec(a.index as int),
{
    let base = seq![
        a.input_topic@,
        a.llm_out_topic@,
        a.llm_stream_topic@,
        a.llm_tool_calls_topic@,
        a.tool_results_topic@,
    ];
    assert(base[0] == a.input_topic@ && base[1] == a.llm_out_topic@ && base[2]
        == a.llm_stream_topic@ && base[3] == a.llm_tool_calls_topic@ && base[4]
        == a.tool_results_topic@);
    assert(base.contains(t) <==> t == base[0] || t == base[1] || t == base[2] || t == base[3] || t
        == base[4]);
    lemma_pushed(base, a.state_control_topic@, t);
    lemma_pushed(push_nonempty(base, a.state_control_topic@), a.llm_stats_topic@, t);
    let pubs = seq![a.stream_output_topic@, a.llm_in_topic@];
    assert(pubs[0] == a.stream_output_topic@ && pubs[1] == a.llm_in_topic@);
    assert(pubs.contains(t) <==> t == pubs[0] || t == pubs[1]);
    lemma_pushed(pubs, a.state_topic@, t);
}

proof fn lemma_pushed(s: Seq<Seq<char>>, topic: Seq<char>, t: Seq<char>)
    requires
        t.len() > 0,
    ensures
        push_nonempty(s, topic).contains(t) <==> s.contains(t) || t == topic,
{
    if topic.len() > 0 {
        let p = s.push(topic);
        assert(p[s.len() as int] == topic);
        if s.contains(t) {
            let i = choose|i: int| 0 <= i < s.len() && s[i] == t;
            assert(p[i] == t);
        }
    }
}

// ---- the server

/// Two lists of names make one: the first as it is, and of the second what is not yet there.
pub proof fn lemma_joined_names(s: Seq<Seq<char>>, other: Seq<Seq<char>>, n: int)
    requires
        0 <= n <= other.len(),
    ensures
        ({
            let t = joined(s, other, n);
            &&& s.len() <= t.len() <= s.len() + n
            &&& t.take(s.len() as int) == s
            &&& forall|x: Seq<char>| #[trigger]
                t.contains(x) <==> s.contains(x) || other.take(n).contains(x)
            &&& s.no_duplicates() ==> t.no_duplicates()
        }),
    decreases n,
{
    let t = joined(s, other, n);
    if n == 0 {
        assert(t.take(s.len() as int) =~= s);
        assert(other.take(0) =~= Seq::empty());
    } else {
        lemma_joined_names(s, other, n - 1);
        let u = joined(s, other, n - 1);
        let x = other[n - 1];
        let (p, q) = (other.take(n - 1), other.take(n));
        assert(t.take(s.len() as int) =~= s);
        assert forall|y: Seq<char>| #[trigger] t.contains(y) <==> s.contains(y) || q.contains(y) by {
            assert(q =~= p.push(x));
            if p.contains(y) {
                let i = choose|i: int| 0 <= i < p.len() && p[i] == y;
                assert(q[i] == y);
            }
            if q.contains(y) {
                let i = choose|i: int| 0 <= i < q.len() && q[i] == y;
                if i < n - 1 {
                    assert(p[i] == y);
                }
            }
            assert(q[n - 1] == x);
            if u.contains(y) {
                let i = choose|i: int| 0 <= i < u.len() && u[i] == y;
                assert(t[i] == y);
            }
            if t.contains(y) && !u.contains(y) {
                let i = choose|i: int| 0 <= i < t.len() && t[i] == y;
                assert(i >= u.len());
                assert(y == x);
            }
            if y == x && !u.contains(x) {
                assert(t[u.len() as int] == x);
            }
        }
    }
}

/// The last topic of a name is the one that counts.
pub proof fn lemma_last_of_name(s: Seq<TopicV>, name: Seq<char>, n: int)
    requires
        0 <= n <= s.len(),
    ensures
        last_named(s, name, n) matches Some(p) ==> 0 <= p < n && s[p].name == name && forall|q: int|
            p < q < n ==> (#[trigger] s[q]).name != name,
        last_named(s, name, n) is None ==> forall|q: int|
            0 <= q < n ==> (#[trigger] s[q]).name != name,
    decreases n,
{
    if n > 0 && s[n - 1].name != name {
        lemma_last_of_name(s, name, n - 1);
    }
}

/// Every topic that was announced is listed, with those that announced themselves for it and
/// those that the bus knows of besides.
pub proof fn lemma_announced_topic_is_listed(
    announced: Seq<TopicV>,
    runtime: Seq<TopicV>,
    i: int,
    x: Seq<char>,
)
    requires
        0 <= i < announced.len(),
    ensures
        ({
            let t = announced[i];
            let l = all_topics(announced, runtime)[i];
            let at = last_named(runtime, t.name, runtime.len() as int);
            &&& i < all_topics(announced, runtime).len()
            &&& l.name == t.name
            &&& l.subscribers.contains(x) <==> t.subscribers.contains(x) || (at is Some
                && runtime[at.unwrap()].subscribers.contains(x))
            &&& l.publishers.contains(x) <==> t.publishers.contains(x) || (at is Some
                && runtime[at.unwrap()].publishers.contains(x))
        }),
{
    let t = announced[i];
    let l = all_topics(announced, runtime)[i];
    assert(l == with_runtime(t, runtime));
    if let Some(k) = last_named(runtime, t.name, runtime.len() as int) {
        let r = runtime[k];
        let (a, b) = (r.subscribers.len() as int, r.publishers.len() as int);
        lemma_joined_names(t.subscribers, r.subscribers, a);
        lemma_joined_names(t.publishers, r.publishers, b);
        assert(r.subscribers.take(a) =~= r.subscribers);
        assert(r.publishers.take(b) =~= r.publishers);
    }
}

/// Every topic that the bus knows of and nobody announced is listed as well, as the bus has it.
pub proof fn lemma_unannounced_topic_is_listed(
    announced: Seq<TopicV>,
    runtime: Seq<TopicV>,
    k: int,
)
    requires
        0 <= k < runtime.len(),
        forall|j: int| 0 <= j < announced.len() ==> (#[trigger] announced[j]).name
            != runtime[k].name,
        forall|j: int| k < j < runtime.len() ==> (#[trigger] runtime[j]).name != runtime[k].name,
    ensures
        all_topics(announced, runtime).contains(runtime[k]),
{
    let n = runtime.len() as int;
    lemma_last_of_name(announced, runtime[k].name, announced.len() as int);
    lemma_last_of_name(runtime, runtime[k].name, n);
    lemma_unannounced_has(announced, runtime, n, k);
    let u = unannounced(announced, runtime, n);
    let i = choose|i: int| 0 <= i < u.len() && u[i] == runtime[k];
    let all = all_topics(announced, runtime);
    assert(all[announced.len() + i] == runtime[k]);
}

proof fn lemma_unannounced_has(announced: Seq<TopicV>, runtime: Seq<TopicV>, n: int, k: int)
    requires
        0 <= k < n <= runtime.len(),
        last_named(announced, runtime[k].name, announced.len() as int) is None,
        last_named(runtime, runtime[k].name, runtime.len() as int) == Some(k),
    ensures
        unannounced(announced, runtime, n).contains(runtime[k]),
    decreases n,
{
    let u = unannounced(announced, runtime, n);
    if k == n - 1 {
        assert(u.last() == runtime[k]);
    } else {
        lemma_unannounced_has(announced, runtime, n - 1, k);
        let b = unannounced(announced, runtime, n - 1);
        let i = choose|i: int| 0 <= i < b.len() && b[i] == runtime[k];
        assert(u[i] == runtime[k]);
    }
}

/// An actor is shown by its last announcement where it made one, and as the bus has it where it
/// did not.
pub proof fn lemma_actor_is_shown(a: AnnouncementV, s: Seq<AnnouncementV>)
    ensures
        ({
            let i = actor_info(a, s);
            &&& i.id == a.id
            &&& i.announced <==> exists|k: int| 0 <= k < s.len() && (#[trigger] s[k]).id == a.id
            &&& !i.announced ==> i.subscriptions == a.subscriptions && i.publications
                == a.publications
            &&& i.announced ==> exists|k: int|
                0 <= k < s.len() && (#[trigger] s[k]).id == a.id && i.subscriptions
                    == s[k].subscriptions && i.publications == s[k].publications
        }),
{
    lemma_last_announcement(s, a.id, s.len() as int);
}

proof fn lemma_last_announcement(s: Seq<AnnouncementV>, id: Seq<char>, n: int)
    requires
        0 <= n <= s.len(),
    ensures
        last_announced(s, id, n) matches Some(p) ==> 0 <= p < n && s[p].id == id,
        last_announced(s, id, n) is None ==> forall|q: int|
            0 <= q < n ==> (#[trigger] s[q]).id != id,
    decreases n,
{
    if n > 0 && s[n - 1].id != id {
        lemma_last_announcement(s, id, n - 1);
    }
}

// ---- servers of tools

/// A server offers all of its tools where none is listed, else those that are, in its order.
pub proof fn lemma_offered_tools(cfg: McpServerConfig, tools: Seq<SyntaxV>, n: int)
    requires
        0 <= n < tools.len(),
    ensures
        offered_tools(cfg, tools, 0).len() == 0,
        cfg.expose@.len() == 0 || texts(cfg.expose@).contains(tools[n].name) ==> offered_tools(
            cfg,
            tools,
            n + 1,
        ) == offered_tools(cfg, tools, n).push(tools[n]),
        cfg.expose@.len() > 0 && !texts(cfg.expose@).contains(tools[n].name) ==> offered_tools(
            cfg,
            tools,
            n + 1,
        ) == offered_tools(cfg, tools, n),
{
}

/// A schema that allows everything is written as an empty object, wherever it stands; everything
/// else stays.
pub proof fn lemma_normalized(v: JsonV)
    ensures
        v == JsonV::Bool(true) ==> (normalized(v) matches JsonV::Object(o) && o.len() == 0),
        v matches JsonV::Object(o) ==> (normalized(v) matches JsonV::Object(p) && p.len() == o.len()
            && forall|i: int|
            0 <= i < o.len() ==> (#[trigger] p[i]).0 == o[i].0 && p[i].1 == normalized(o[i].1)),
        v matches JsonV::Array(a) ==> (normalized(v) matches JsonV::Array(b) && b.len() == a.len()
            && forall|i: int| 0 <= i < a.len() ==> #[trigger] b[i] == normalized(a[i])),
        v matches JsonV::Str(_) ==> normalized(v) == v,
        v == JsonV::Bool(false) ==> normalized(v) == v,
        v == JsonV::Null ==> normalized(v) == v,
        v matches JsonV::Int(_) ==> normalized(v) == v,
{
}

/// A call brings its texts, one to a line, as a success unless the server says that it failed.
pub proof fn lemma_call_result(pieces: Seq<Seq<char>>, failed: Option<bool>)
    ensures
        failed == Some(true) ==> call_result(pieces, failed) == Err::<Seq<char>, Seq<char>>(
            "MCP error: "@ + join(pieces, "\n"@),
        ),
        failed != Some(true) ==> call_result(pieces, failed) == Ok::<Seq<char>, Seq<char>>(
            join(pieces, "\n"@),
        ),
{
}

/// The log keeps the last 200 lines in their order.
pub proof fn lemma_log(s: Seq<Seq<char>>, line: Seq<char>)
    requires
        s.len() <= 200,
    ensures
        logged(s, line).len() <= 200,
        logged(s, line).last() == line,
        s.len() < 200 ==> logged(s, line) == s.push(line),
        s.len() == 200 ==> logged(s, line) == s.subrange(1, 200).push(line),
{
    if s.len() == 200 {
        assert(s.drop_first() =~= s.subrange(1, 200));
    }
}

/// The last lines of a log, the last first.
pub proof fn lemma_last_lines(s: Seq<Seq<char>>, n: int, i: int)
    requires
        0 <= i < n,
        i < s.len(),
    ensures
        last_lines(s, n)[i] == s[s.len() - 1 - i],
        last_lines(s, n).len() == if n < s.len() {
            n
        } else {
            s.len() as int
        },
{
}

/// The wait before a server is started again: half a second at first, twice as long each time,
/// and half a minute at most.
pub proof fn lemma_backoff(attempt: int)
    requires
        attempt >= 1,
    ensures
        backoff(1) == 500,
        backoff(attempt + 1) == if 2 * backoff(attempt) < 30_000 {
            2 * backoff(attempt)
        } else {
            30_000
        },
        500 <= backoff(attempt) <= 30_000,
    decreases attempt,
{
    let p = crate::transport::power_of_two((attempt - 1) as nat);
    assert(crate::transport::power_of_two(attempt as nat) == 2 * p);
    assert(crate::transport::power_of_two(0) == 1);
    lemma_power(attempt - 1);
}

proof fn lemma_power(n: int)
    requires
        n >= 0,
    ensures
        crate::transport::power_of_two(n as nat) >= 1,
    decreases n,
{
    if n > 0 {
        lemma_power(n - 1);
    }
}

/// A server that runs is left alone, one that crashed is started again, up to ten times in a row,
/// and then no more; one that came back has all its attempts again.
pub proof fn lemma_supervision(s: ServerV, tools: usize, error: Seq<char>)
    requires
        s.failures >= 0,
    ensures
        s.status is Running || s.status is Starting ==> s.look() == (s, Supervision::Wait),
        s.status is Disabled ==> s.look() == (s, Supervision::Stop),
        (s.status is Crashed || s.status is Restarting) && s.failures < 10 ==> s.look().1
            == (Supervision::Respawn { delay_ms: backoff(s.failures + 1) as u64 }) && s.look().0 == (
        ServerV {
            status: StatusV::Restarting { attempt: (s.failures + 1) as usize },
            retry_count: s.failures + 1,
            ..s
        }),
        (s.status is Crashed || s.status is Restarting) && s.failures >= 10 ==> s.look().1
            == Supervision::Stop && s.look().0.status is Disabled && s.look().0 == (ServerV {
            status: s.look().0.status,
            ..s
        }),
        s.respawned(tools).status is Running && s.respawned(tools).failures == 0 && s.respawned(
            tools,
        ).retry_count == 0 && s.respawned(tools).tool_count == tools && s.respawned(tools).log
            == s.log && s.respawned(tools).name == s.name,
        s.respawn_failed(error).status is Crashed && s.respawn_failed(error).failures == s.failures
            + 1 && s.respawn_failed(error).name == s.name,
        s.log.len() < 200 ==> s.respawn_failed(error).log == s.log.push(
            s.respawn_failed(error).log.last(),
        ),
{
    if s.log.len() < 200 {
        assert(s.respawn_failed(error).log =~= s.log.push(s.respawn_failed(error).log.last()));
    }
}

/// What is said of the servers: a line for each in its place, or for the one that is asked for,
/// with its name, its state and how many tools it has.
pub proof fn lemma_status_lines(s: Seq<ServerV>, filter: Option<Seq<char>>, n: int)
    requires
        0 <= n < s.len(),
    ensures
        status_lines(s, filter, 0).len() == 0,
        ({
            let line = "- "@ + s[n].name + " ["@ + s[n].status.words() + "], retries="@ + dec(
                s[n].retry_count,
            ) + ", tools="@ + dec(s[n].tool_count) + "\n"@;
            status_lines(s, filter, n + 1) == status_lines(s, filter, n) + match filter {
                None => line,
                Some(name) => if name == s[n].name {
                    line
                } else {
                    Seq::empty()
                },
            }
        }),
{
    let before = status_lines(s, filter, n);
    assert(before + Seq::<char>::empty() =~= before);
}

/// A server is found by its name, the first that has it.
pub proof fn lemma_server(s: Seq<ServerV>, name: Seq<char>, i: int)
    requires
        0 <= i,
    ensures
        server_from(s, name, i) matches Some(p) ==> i <= p < s.len() && s[p].name == name && forall|
            q: int,
        |
            i <= q < p ==> (#[trigger] s[q]).name != name,
        server_from(s, name, i) is None ==> forall|q: int|
            i <= q < s.len() ==> (#[trigger] s[q]).name != name,
    decreases s.len() - i,
{
    if i < s.len() && s[i].name != name {
        lemma_server(s, name, i + 1);
    }
}

// ---- tools

/// A tool takes the place of one with its name and leaves all others; there is never a second of
/// a name.
pub proof fn lemma_registered(s: Seq<ToolDefinition>, t: ToolDefinition)
    requires
        names_differ(s),
    ensures
        ({
            let r = registered(s, t);
            let known = exists|i: int| 0 <= i < s.len() && (#[trigger] s[i]).name@ == t.name@;
            &&& r.contains(t)
            &&& names_differ(r)
            &&& r.len() == s.len() + if known {
                0int
            } else {
                1
            }
            &&& forall|i: int|
                0 <= i < s.len() && (#[trigger] s[i]).name@ != t.name@ ==> r[i] == s[i]
        }),
{
    let r = registered(s, t);
    lemma_tool_position(s, t.name@, 0);
    match tool_from(s, t.name@, 0) {
        Some(i) => {
            assert(r[i] == t);
        },
        None => {
            assert(r[s.len() as int] == t);
        },
    }
}

proof fn lemma_tool_position(s: Seq<ToolDefinition>, name: Seq<char>, i: int)
    requires
        0 <= i,
    ensures
        tool_from(s, name, i) matches Some(p) ==> i <= p < s.len() && s[p].name@ == name,
        tool_from(s, name, i) is None ==> forall|q: int|
            i <= q < s.len() ==> (#[trigger] s[q]).name@ != name,
    decreases s.len() - i,
{
    if i < s.len() && s[i].name@ != name {
        lemma_tool_position(s, name, i + 1);
    }
}

/// A tool is offered to a model by its own name, description and parameters.
pub proof fn lemma_tool_is_offered(t: SyntaxV)
    ensures
        t.openai().get("type"@) == Some(JsonV::Str("function"@)),
        t.openai().get("function"@) matches Some(f) && f.get("name"@) == Some(JsonV::Str(t.name))
            && f.get("description"@) == Some(JsonV::Str(t.description)) && f.get("parameters"@)
            == Some(t.parameters),
{
    reveal_strlit("type");
    reveal_strlit("function");
    reveal_strlit("name");
    reveal_strlit("description");
    reveal_strlit("parameters");
    let o = t.openai()->Object_0;
    assert(o[0].0.len() == 4 && o[1].0.len() == 8);
    lemma_get_entry(o, 0);
    lemma_get_entry(o, 1);
    let f = o[1].1->Object_0;
    assert(f[0].0.len() == 4 && f[1].0.len() == 11 && f[2].0.len() == 10);
    lemma_get_entry(f, 0);
    lemma_get_entry(f, 1);
    lemma_get_entry(f, 2);
}

/// A tool that the model must call is named.
pub proof fn lemma_tool_is_chosen(name: Seq<char>)
    ensures
        tool_choice_v(name).get("type"@) == Some(JsonV::Str("function"@)),
        tool_choice_v(name).get("function"@) matches Some(f) && f.get("name"@) == Some(
            JsonV::Str(name),
        ),
{
    reveal_strlit("type");
    reveal_strlit("function");
    let o = tool_choice_v(name)->Object_0;
    assert(o[0].0.len() == 4 && o[1].0.len() == 8);
    lemma_get_entry(o, 0);
    lemma_get_entry(o, 1);
    lemma_get_entry(o[1].1->Object_0, 0);
}

/// A runner answers a call under its id and its tool's name: with the text where it succeeded, and
/// with the error where it did not.
pub proof fn lemma_runner_answers(
    name: Seq<char>,
    id: Seq<char>,
    outcome: Result<Seq<char>, Seq<char>>,
)
    ensures
        ({
            let r = result_of(name, id, outcome);
            &&& r.id == id && r.name == name
            &&& r.success <==> outcome is Ok
            &&& outcome matches Ok(t) ==> r.result == t && r.error is None
            &&& outcome matches Err(e) ==> r.error == Some(e) && r.result.len() == 0
        }),
{
}

/// The topic on which a runner listens is the one to which calls of its tool are sent.
pub proof fn lemma_runner_listens(r: &ToolActorRunner)
    ensures
        r.topic() == "tool:"@ + r.tool_name@ + ":execute"@,
        r.actor_name() == "tool-"@ + r.tool_name@,
{
}

// ---- on the wire

/// A call is sent with its id, its tool and its arguments, each under its own name.
pub proof fn lemma_call_is_sent(e: ExecuteV)
    ensures
        execute_json(e).get("tool_call_id"@) == Some(JsonV::Str(e.id)),
        execute_json(e).get("tool_name"@) == Some(JsonV::Str(e.name)),
        execute_json(e).get("arguments"@) == Some(e.arguments),
{
    reveal_strlit("tool_call_id");
    reveal_strlit("tool_name");
    reveal_strlit("arguments");
    let o = execute_json(e)->Object_0;
    assert(o[0].0.len() == 12 && o[1].0.len() == 9 && o[2].0.len() == 9);
    assert(o[1].0[0] == 't' && o[2].0[0] == 'a');
    lemma_get_entry(o, 0);
    lemma_get_entry(o, 1);
    lemma_get_entry(o, 2);
}

/// A result is sent with all that it holds, each under its own name.
pub proof fn lemma_result_is_sent(r: ToolResultV)
    ensures
        result_json(r).get("tool_call_id"@) == Some(JsonV::Str(r.id)),
        result_json(r).get("tool_name"@) == Some(JsonV::Str(r.name)),
        result_json(r).get("success"@) == Some(JsonV::Bool(r.success)),
        result_json(r).get("result"@) == Some(JsonV::Str(r.result)),
        result_json(r).get("error"@) == Some(
            match r.error {
                Some(e) => JsonV::Str(e),
                None => JsonV::Null,
            },
        ),
{
    reveal_strlit("tool_call_id");
    reveal_strlit("tool_name");
    reveal_strlit("success");
    reveal_strlit("result");
    reveal_strlit("error");
    let o = result_json(r)->Object_0;
    assert(o[0].0.len() == 12 && o[1].0.len() == 9 && o[2].0.len() == 7 && o[3].0.len() == 6
        && o[4].0.len() == 5);
    assert(keys_once(o));
    lemma_get_entry(o, 0);
    lemma_get_entry(o, 1);
    lemma_get_entry(o, 2);
    lemma_get_entry(o, 3);
    lemma_get_entry(o, 4);
}

/// A message is sent with its reference, topic, source, payload and metadata, each under its own
/// name.
pub proof fn lemma_message_is_sent(reference: Seq<char>, m: MessageV)
    ensures
        ({
            let v = message_json(reference, m);
            &&& v.get("reference"@) == Some(JsonV::Str(reference))
            &&& v.get("topic"@) == Some(JsonV::Str(m.topic))
            &&& v.get("source"@) == Some(JsonV::Str(m.source))
            &&& v.get("payload"@) == Some(m.payload)
            &&& v.get("meta"@) == Some(m.meta)
        }),
{
    reveal_strlit("reference");
    reveal_strlit("topic");
    reveal_strlit("source");
    reveal_strlit("payload");
    reveal_strlit("meta");
    let o = message_json(reference, m)->Object_0;
    assert(o[0].0.len() == 9 && o[1].0.len() == 5 && o[2].0.len() == 6 && o[3].0.len() == 7
        && o[4].0.len() == 4);
    assert(keys_once(o));
    lemma_get_entry(o, 0);
    lemma_get_entry(o, 1);
    lemma_get_entry(o, 2);
    lemma_get_entry(o, 3);
    lemma_get_entry(o, 4);
}

// ---- on disk

/// A saved conversation holds its messages, its count of iterations, the calls and messages that
/// wait, whether it was interrupted, and its todo list.
pub proof fn lemma_state_is_saved(s: StateV, calls: Seq<Seq<char>>)
    ensures
        ({
            let v = state_json(s, calls);
            &&& v.get("messages"@) == Some(JsonV::Array(s.messages))
            &&& v.get("iteration_count"@) == Some(JsonV::Int(s.iteration_count as int))
            &&& v.get("pending_tool_calls"@) matches Some(JsonV::Array(a)) && holds_texts(a, calls)
            &&& v.get("pending_messages"@) matches Some(JsonV::Array(a)) && holds_texts(
                a,
                s.pending_messages,
            )
            &&& v.get("was_interrupted"@) == Some(JsonV::Bool(s.was_interrupted))
            &&& v.get("todos"@) matches Some(JsonV::Array(a)) && a.len() == s.todos.len() && forall|
                i: int,
            |
                0 <= i < a.len() ==> (#[trigger] a[i]).get("content"@) == Some(
                    JsonV::Str(s.todos[i].content),
                ) && a[i].get("priority"@) == Some(JsonV::Str(s.todos[i].priority)) && a[i].get(
                    "status"@,
                ) == Some(
                    JsonV::Str(
                        match s.todos[i].status {
                            TodoStatus::Pending => "pending"@,
                            TodoStatus::InProgress => "in_progress"@,
                            TodoStatus::Completed => "completed"@,
                        },
                    ),
                )
        }),
{
    reveal_strlit("messages");
    reveal_strlit("iteration_count");
    reveal_strlit("pending_tool_calls");
    reveal_strlit("pending_messages");
    reveal_strlit("was_interrupted");
    reveal_strlit("todos");
    let v = state_json(s, calls);
    let o = v->Object_0;
    assert(o[0].0.len() == 8 && o[1].0.len() == 15 && o[2].0.len() == 18 && o[3].0.len() == 16);
    assert(o[4].0.len() == 15 && o[5].0.len() == 5);
    assert(o[1].0[0] == 'i' && o[4].0[0] == 'w');
    assert(keys_once(o));
    lemma_get_entry(o, 0);
    lemma_get_entry(o, 1);
    lemma_get_entry(o, 2);
    lemma_get_entry(o, 3);
    lemma_get_entry(o, 4);
    lemma_get_entry(o, 5);
    let a = todos_json(s.todos)->Array_0;
    reveal_strlit("content");
    reveal_strlit("status");
    reveal_strlit("priority");
    assert forall|i: int| 0 <= i < a.len() implies (#[trigger] a[i]).get("content"@) == Some(
        JsonV::Str(s.todos[i].content),
    ) && a[i].get("priority"@) == Some(JsonV::Str(s.todos[i].priority)) && a[i].get("status"@)
        == Some(
        JsonV::Str(
            match s.todos[i].status {
                TodoStatus::Pending => "pending"@,
                TodoStatus::InProgress => "in_progress"@,
                TodoStatus::Completed => "completed"@,
            },
        ),
    ) by {
        let t = a[i]->Object_0;
        assert(a[i] == todo_json(s.todos[i]));
        assert(t[0].0.len() == 7 && t[1].0.len() == 6 && t[2].0.len() == 8);
        lemma_get_entry(t, 0);
        lemma_get_entry(t, 1);
        lemma_get_entry(t, 2);
    }
}

/// Whether the values are the texts.
pub open spec fn holds_texts(a: Seq<JsonV>, t: Seq<Seq<char>>) -> bool {
    a.len() == t.len() && forall|i: int| 0 <= i < a.len() ==> #[trigger] a[i] == JsonV::Str(t[i])
}

/// What lasts of a conversation is what is saved of it; nothing is under way in what is loaded.
pub proof fn lemma_what_lasts(s: StateV)
    ensures
        ({
            let t = lasting(s);
            &&& t.messages == s.messages && t.todos == s.todos
            &&& t.iteration_count == s.iteration_count
            &&& t.pending_tool_calls == s.pending_tool_calls
            &&& t.pending_messages == s.pending_messages
            &&& t.was_interrupted == s.was_interrupted
            &&& !t.in_flight && t.partial.len() == 0 && t.reasoning.len() == 0
            &&& t.last_usage is None && t.hashes.len() == 0 && t.surprises.len() == 0
        }),
{
}

/// A file holds the state under the agent's name; what is loaded from it is that state, and a
/// file that holds only a state is loaded as it is.
pub proof fn lemma_document_is_loaded(agent: Seq<char>, state: JsonV)
    ensures
        loaded_state(saved_document(agent, state)) == state,
        saved_document(agent, state).get("agent_id"@) == Some(JsonV::Str(agent)),
        state.get("state"@) is None ==> loaded_state(state) == state,
{
    reveal_strlit("version");
    reveal_strlit("agent_id");
    reveal_strlit("state");
    let o = saved_document(agent, state)->Object_0;
    assert(o[0].0.len() == 7 && o[1].0.len() == 8 && o[2].0.len() == 5);
    lemma_get_entry(o, 1);
    lemma_get_entry(o, 2);
}

/// What an agent is asked for, and what it is handed, is what it takes as its command.
pub proof fn lemma_agent_understands(p: &PersistenceActor, agent: Seq<char>, state: JsonV)
    ensures
        crate::agent_events::state_command(agent, p.dump_request(agent).payload)
            == crate::agent_events::StateCommandV::Dump,
        crate::agent_events::state_command(agent, p.load_request(agent, state).payload)
            == crate::agent_events::StateCommandV::Load(state),
        p.dump_request(agent).topic == p.state_control_topic@,
        p.load_request(agent, state).topic == p.state_control_topic@,
{
    reveal_strlit("type");
    reveal_strlit("agent_id");
    reveal_strlit("state");
    reveal_strlit("dump_state");
    reveal_strlit("load_state");
    assert("dump_state"@[0] == 'd' && "load_state"@[0] == 'l');
    let o = p.dump_request(agent).payload->Object_0;
    assert(o[0].0.len() == 4 && o[1].0.len() == 8);
    lemma_get_entry(o, 0);
    lemma_get_entry(o, 1);
    let q = p.load_request(agent, state).payload->Object_0;
    assert(q[0].0.len() == 4 && q[1].0.len() == 8 && q[2].0.len() == 5);
    lemma_get_entry(q, 0);
    lemma_get_entry(q, 1);
    lemma_get_entry(q, 2);
}

/// An answer says whether it worked, and what happened.
pub proof fn lemma_answer(p: &PersistenceActor, success: bool, text: Seq<char>)
    ensures
        p.answer(success, text).topic == p.response_topic@,
        p.answer(success, text).payload.get("success"@) == Some(JsonV::Bool(success)),
        p.answer(success, text).payload.get("message"@) == Some(JsonV::Str(text)),
{
    reveal_strlit("success");
    reveal_strlit("message");
    let o = p.answer(success, text).payload->Object_0;
    assert(o[0].0.len() == 7 && o[1].0.len() == 7 && o[0].0[0] == 's' && o[1].0[0] == 'm');
    lemma_get_entry(o, 0);
    lemma_get_entry(o, 1);
}

/// The report on all servers ends with the last line of each log; that on one with the last
/// twenty lines of its own.
pub proof fn lemma_status_report(s: Seq<ServerV>, name: Seq<char>)
    ensures
        ({
            let n = s.len() as int;
            let k = server_from(s, name, 0);
            &&& status_report(s, None) == status_lines(s, None, n) + last_logs(s, n)
            &&& k is None ==> status_report(s, Some(name)) == status_lines(s, Some(name), n)
            &&& k matches Some(i) ==> status_report(s, Some(name)) == status_lines(s, Some(name), n)
                + "\nRecent stderr logs:\n"@ + ended_lines(
                last_lines(s[i].log, 20),
                last_lines(s[i].log, 20).len() as int,
            )
        }),
{
}

/// Each line of a list ends its own line; the last line of each log that has one is told.
pub proof fn lemma_log_lines(lines: Seq<Seq<char>>, s: Seq<ServerV>, n: int)
    ensures
        ended_lines(lines, 0).len() == 0,
        0 <= n < lines.len() ==> ended_lines(lines, n + 1) == ended_lines(lines, n) + lines[n]
            + "\n"@,
        last_logs(s, 0).len() == 0,
        0 <= n < s.len() && s[n].log.len() > 0 ==> last_logs(s, n + 1) == last_logs(s, n)
            + "  last log: "@ + s[n].log.last() + "\n"@,
        0 <= n < s.len() && s[n].log.len() == 0 ==> last_logs(s, n + 1) == last_logs(s, n),
{
}

/// A state in words.
pub proof fn lemma_status_words(s: StatusV)
    ensures
        s is Running ==> s.words() == "running"@,
        s is Starting ==> s.words() == "starting"@,
        s is Crashed ==> s.words() == "crashed"@,
        s matches StatusV::Restarting { attempt } ==> s.words() == "restarting(attempt="@ + dec(
            attempt as int,
        ) + ")"@,
        s matches StatusV::Disabled { reason } ==> s.words() == "disabled("@ + reason + ")"@,
{
}

} // verus!
