//! What the services answer, whatever they are asked.

use crate::actor::ActorAnnouncement;
use crate::agent::{after_publish, PublishStep};
use crate::bus::{BusError, BusRegistry};
use crate::config::{
    default_agent_in_topic, default_agent_out_topic, default_agent_stream_topic,
    default_input_topic, default_llm_in_topic, default_llm_max_tokens, default_llm_out_topic,
    default_llm_stats_topic, default_llm_stream_topic, default_llm_tool_calls_topic,
    default_log_topic, default_max_iterations, default_max_retries, default_port,
    default_request_timeout_secs, default_retry_base_delay_ms, default_stream_timeout_secs,
    default_tool_results_topic, default_ui_input_topic, default_ui_user_topic,
    default_user_control_topic, LlmConfig, McpServerConfig,
};
use crate::endpoint::Endpoint;
use crate::five_whys::{failed_analysis_text, IncidentReport, Surprise};
use crate::generate_object::GenerateObject;
use crate::internal_tools::InternalToolOutcome;
use crate::json::{jsons, Json, JsonV};
use crate::llm_actor::{opt_values, LlmActor, LlmCall};
use crate::llm_error::is_retryable_failure;
use crate::llm_stream::chunk_timeout_ms;
use crate::mcp::{starts_on_launch, McpTool};
use crate::message::Message;
use crate::model_probe::probe_endpoints;
use crate::notes::{
    format_conclusions, format_fixmes, is_blank, ConclusionEntry, CreateFixmeTool, FixmeEntry,
    MarkFixmeDoneTool, RecordConclusionTool,
};
use crate::one_shot::{one_shot_request, OneShot};
use crate::openai_chat::chat_body;
use crate::persistence::PersistenceActor;
use crate::provider::{headers, ProviderConfig, Route};
use crate::request::{effective_messages, CanonicalRequest, CanonicalV, LlmRequest};
use crate::schema::{ToolChoice, ToolDefinition};
use crate::server::{list_announced, ActorInfoResponse, ErrorResponse, PublishRequest, PublishResponse};
use crate::state::ConversationState;
use crate::text::{opt_str, texts, trim};
use crate::todo::is_internal_tool;
use crate::tool::{ToolRegistry, ToolSyntax};
use crate::transport::PreparedRequest;
use vstd::prelude::*;

verus! {

// ---- asking the model

/// A prepared request carries the conversation, the tools and the grammar that were handed over,
/// in full, with the settings of the configuration, and is signed with its key; without the name
/// of a model nothing is sent.
pub proof fn lemma_requests_carry_everything(
    a: &LlmActor,
    config: &LlmConfig,
    messages: &Vec<Json>,
    tools: Option<&Vec<Json>>,
    grammar: Option<&str>,
    r: Result<PreparedRequest, String>,
)
    requires
        call_ensures(LlmActor::prepare, (a, config, messages, tools, grammar), r),
    ensures
        r is Err <==> config@.model.len() == 0,
        r matches Ok(p) ==> {
            &&& p.body@ == chat_body(
                (CanonicalV {
                    model: config@.model,
                    messages: jsons(messages@),
                    tools: opt_values(tools),
                    tool_choice: None,
                    temperature: Some(config@.temperature),
                    max_tokens: Some(config@.max_tokens),
                    stream: true,
                    grammar: opt_str(grammar),
                }),
            )
            &&& headers(p.headers@) == seq![
                ("Content-Type"@, "application/json"@),
                ("Authorization"@, "Bearer "@ + config@.api_key),
            ]
        },
{
}

/// A request that is taken up is sent with its own messages, tools and grammar.
pub proof fn lemma_calls_are_taken_up(a: &LlmActor, req: &LlmRequest, r: Result<LlmCall, Message>)
    requires
        call_ensures(LlmActor::accept, (a, req), r),
    ensures
        r matches Ok(c) ==> {
            &&& c.config@.model.len() > 0
            &&& crate::request::opt_jsons(c.tools) == req@.tools
            &&& c.request.body@ == chat_body(
                (CanonicalV {
                    model: c.config@.model,
                    messages: effective_messages(req@),
                    tools: req@.tools,
                    tool_choice: None,
                    temperature: Some(c.config@.temperature),
                    max_tokens: Some(c.config@.max_tokens),
                    stream: true,
                    grammar: req@.grammar,
                }),
            )
        },
{
}

/// Only an interrupt is answered, on the output, with its reason.
pub proof fn lemma_interrupts_are_answered(a: &LlmActor, payload: &Json, r: Option<Message>)
    requires
        call_ensures(LlmActor::on_control, (a, payload), r),
    ensures
        r is Some <==> payload@.get("type"@) == Some(JsonV::Str("interrupt"@)),
        r matches Some(m) ==> m@.topic == a.output_topic@ && (payload@.get("reason"@) matches Some(
            w,
        ) ==> (w matches JsonV::Str(s) ==> m@.payload == JsonV::Str("Interrupted: "@ + s))),
{
}

/// A failure is tried again where it took too long, where nothing answered, or by its status.
pub proof fn lemma_failures_to_retry(late: bool, lost: bool, status: Option<u16>, r: bool)
    requires
        call_ensures(is_retryable_failure, (late, lost, status), r),
    ensures
        late || lost ==> r,
        !late && !lost && status is None ==> !r,
{
}

/// The next piece of a stream is waited for until 90 seconds have passed since the last one, for
/// a millisecond where they have, and never for longer than the stream may take.
pub proof fn lemma_waits_for_a_piece(limit_secs: u64, since_ms: u64, r: u64)
    requires
        limit_secs * 1000 <= u64::MAX,
        call_ensures(chunk_timeout_ms, (limit_secs, since_ms), r),
    ensures
        r <= limit_secs * 1000,
        r == limit_secs * 1000 || r == 90_000 - since_ms || (r == 1 && since_ms >= 90_000),
        since_ms < 90_000 ==> r <= 90_000 - since_ms,
        since_ms >= 90_000 ==> r <= 1,
{
}

/// One question is one message from the user, with no tools.
pub proof fn lemma_one_question(
    config: &LlmConfig,
    instruction: &str,
    r: Result<CanonicalRequest, String>,
)
    requires
        call_ensures(one_shot_request, (config, instruction), r),
    ensures
        r is Err <==> config@.model.len() == 0,
        r matches Ok(c) ==> {
            &&& c@.messages == seq![
                JsonV::Object(
                    seq![
                        ("role"@, JsonV::Str("user"@)),
                        ("content"@, JsonV::Str(instruction@)),
                    ],
                ),
            ]
            &&& c@.tools is None
            &&& c@.model == config@.model
            &&& c@.stream
        },
{
}

/// The answer to one question is the text that streamed in.
pub proof fn lemma_one_answer(s: OneShot, r: String)
    requires
        call_ensures(OneShot::finish, (s,), r),
    ensures
        s@.text.len() > 0 ==> r@ == s@.text,
        s@.text.len() == 0 ==> r@ == s@.state.text,
{
    if s@.text.len() == 0 && s@.state.text.len() == 0 {
        assert(s@.text =~= s@.state.text);
    }
}

/// A model is looked up by its name and then in the list; without a name nowhere.
pub proof fn lemma_lookups(base: &str, model: &str, r: Vec<Endpoint>)
    requires
        call_ensures(probe_endpoints, (base, model), r),
    ensures
        r@.len() == 0 <==> model@.len() == 0,
        r@.len() == 0 || r@.len() == 2,
        forall|i: int|
            0 <= i < r@.len() ==> (#[trigger] r@[i]).base_url@
                == crate::endpoint::without_slashes(base@),
{
}

/// A route goes to the provider's address, with its key.
pub proof fn lemma_routes(p: &ProviderConfig, r: Route)
    requires
        call_ensures(ProviderConfig::openai_chat_route, (p,), r),
    ensures
        r.provider@ == p.id@,
        r.auth.token@ == p.api_key@,
        r.endpoint.base_url@ == crate::endpoint::without_slashes(p.base_url@),
        r.endpoint.path@ == crate::endpoint::rooted("/chat/completions"@),
{
}

/// A route sends a request to its endpoint under its token.
pub proof fn lemma_routes_send(route: &Route, c: &CanonicalRequest, r: PreparedRequest)
    requires
        call_ensures(Route::prepare, (route, c), r),
    ensures
        r.url@ == route.endpoint.base_url@ + route.endpoint.path@,
        r.body@ == chat_body(c@),
        headers(r.headers@).contains(("Authorization"@, "Bearer "@ + route.auth.token@)),
{
    assert(headers(r.headers@)[1] == ("Authorization"@, "Bearer "@ + route.auth.token@));
}

/// Which tool is to be called is named by itself, or by one of three words.
pub proof fn lemma_choices(c: &ToolChoice, r: Json)
    requires
        call_ensures(ToolChoice::to_openai_value, (c,), r),
    ensures
        *c is Auto ==> r@ == JsonV::Str("auto"@),
        *c is NoTool ==> r@ == JsonV::Str("none"@),
        *c is Required ==> r@ == JsonV::Str("required"@),
        *c matches ToolChoice::Tool(name) ==> r@ == JsonV::Object(
            seq![
                ("type"@, JsonV::Str("function"@)),
                ("function"@, JsonV::Object(seq![("name"@, JsonV::Str(name@))])),
            ],
        ),
{
}

/// The tool that takes a structured result asks for an object with the wanted properties.
pub proof fn lemma_wanted_objects(g: &GenerateObject, r: ToolDefinition)
    requires
        call_ensures(GenerateObject::tool_definition, (g,), r),
    ensures
        r.name@ == "generate_object"@,
        r.parameters@ == JsonV::Object(
            seq![
                ("type"@, JsonV::Str("object"@)),
                ("properties"@, g.schema@),
                ("required"@, JsonV::Array(Seq::empty())),
            ],
        ),
{
}

// ---- the bus and the server

/// An actor publishes where it was announced and the topic is there; who it is and which topic is
/// told where not.
pub proof fn lemma_publishing(b: &BusRegistry, actor: &str, topic: &str, r: Result<(), BusError>)
    requires
        call_ensures(BusRegistry::may_publish, (b, actor, topic), r),
    ensures
        !b@.topics.contains(topic@) ==> r is Err,
        r matches Err(BusError::NotAnnounced(id)) ==> id@ == actor@,
        r matches Err(BusError::TopicNotFound(t)) ==> t@ == topic@ && !b@.topics.contains(topic@),
        r is Ok || r matches Err(BusError::NotAnnounced(_)) || r matches Err(
            BusError::TopicNotFound(_),
        ),
{
}

/// Who was announced is listed with all that it takes and gives.
pub proof fn lemma_announced_are_listed(a: &Vec<ActorAnnouncement>, r: Vec<ActorInfoResponse>)
    requires
        call_ensures(list_announced, (a,), r),
    ensures
        r@.len() == a@.len(),
        forall|i: int|
            0 <= i < r@.len() ==> {
                &&& (#[trigger] r@[i])@.id == a@[i]@.id
                &&& r@[i]@.subscriptions == a@[i]@.subscriptions
                &&& r@[i]@.publications == a@[i]@.publications
                &&& r@[i]@.announced
            },
{
    let infos = crate::server::actor_infos(r@);
    assert(infos.len() == r@.len());
    assert forall|i: int| 0 <= i < r@.len() implies {
        &&& (#[trigger] r@[i])@.id == a@[i]@.id
        &&& r@[i]@.subscriptions == a@[i]@.subscriptions
        &&& r@[i]@.publications == a@[i]@.publications
        &&& r@[i]@.announced
    } by {
        assert(infos[i] == r@[i]@);
    }
}

/// A request to publish succeeds where publishing did, and says to which topic; else it says why
/// not.
pub proof fn lemma_publish_answers(
    q: &PublishRequest,
    published: Result<(), &str>,
    r: Result<PublishResponse, ErrorResponse>,
)
    requires
        call_ensures(PublishRequest::answer, (q, published), r),
    ensures
        r is Ok <==> published is Ok,
        r matches Ok(p) ==> p.success && p.topic@ == q.topic@,
        published matches Err(e) ==> (r matches Err(x) && x.error@ == e@),
{
}

/// A message that could not be published is tried again after a second, three times.
pub proof fn lemma_publish_steps(attempt: u32, published: bool, r: PublishStep)
    requires
        call_ensures(after_publish, (attempt, published), r),
    ensures
        r == PublishStep::Done <==> published,
        r == PublishStep::GiveUp <==> !published && attempt >= 3,
        r matches PublishStep::Retry(ms) ==> ms == 1000,
{
}

/// A saved file that was written is told as a success, and one that was not with the fault.
pub proof fn lemma_saves_are_answered(
    p: &PersistenceActor,
    file: &str,
    written: Result<(), &str>,
    r: Message,
)
    requires
        call_ensures(PersistenceActor::on_file_written, (p, file, written), r),
    ensures
        r@.topic == p.response_topic@,
        written is Ok ==> r@.payload == JsonV::Object(
            seq![
                ("success"@, JsonV::Bool(true)),
                ("message"@, JsonV::Str("Saved state to "@ + file@)),
            ],
        ),
        written matches Err(e) ==> r@.payload == JsonV::Object(
            seq![
                ("success"@, JsonV::Bool(false)),
                ("message"@, JsonV::Str("Failed to write file: "@ + e@)),
            ],
        ),
{
}

/// A state that was handed on is told as a success, and one that was not with the fault.
pub proof fn lemma_loads_are_answered(
    p: &PersistenceActor,
    file: &str,
    published: Result<(), &str>,
    r: Message,
)
    requires
        call_ensures(PersistenceActor::on_load_published, (p, file, published), r),
    ensures
        r@.topic == p.response_topic@,
        published is Ok ==> r@.payload == JsonV::Object(
            seq![
                ("success"@, JsonV::Bool(true)),
                ("message"@, JsonV::Str("Loaded state from "@ + file@)),
            ],
        ),
        published matches Err(e) ==> r@.payload == JsonV::Object(
            seq![
                ("success"@, JsonV::Bool(false)),
                ("message"@, JsonV::Str("Failed to publish load_state: "@ + e@)),
            ],
        ),
{
}

// ---- tools and notes

/// A tool is found by its name, and only by it.
pub proof fn lemma_tools_are_found(g: &ToolRegistry, name: &str, r: Option<&ToolSyntax>)
    requires
        call_ensures(ToolRegistry::find, (g, name), r),
    ensures
        r matches Some(t) ==> t@.name == name@ && g@.contains(t@),
        r is None ==> forall|i: int| 0 <= i < g@.len() ==> (#[trigger] g@[i]).name != name@,
{
}

/// A server that is started on launch is one that is meant to be and that names a command.
pub proof fn lemma_servers_on_launch(c: &McpServerConfig, r: bool)
    requires
        call_ensures(starts_on_launch, (c,), r),
    ensures
        c.default && c.command@.len() > 0 ==> r,
        !c.default ==> !r,
        c.command@.len() == 0 ==> !r,
{
}

/// Arguments that are an object are handed on as they are.
pub proof fn lemma_arguments_are_handed_on(t: &McpTool, args: &Json, r: Json)
    requires
        call_ensures(McpTool::arguments, (t, args), r),
    ensures
        args@ is Object ==> r@ == args@,
        !(args@ is Object) ==> r@ == JsonV::Object(Seq::empty()),
{
}

/// The list of tasks is written and read by tools of the agent's own.
pub proof fn lemma_own_tools(name: &str, r: bool)
    requires
        call_ensures(is_internal_tool, (name,), r),
    ensures
        r <==> name@ == "todo_write"@ || name@ == "todo_read"@,
{
}

/// A note is taken where its phrase says something, as it was given.
pub proof fn lemma_phrases(t: &CreateFixmeTool, args: &Json, r: Result<String, String>)
    requires
        call_ensures(CreateFixmeTool::plan, (t, args), r),
    ensures
        r matches Ok(p) ==> args@.get("phrase"@) == Some(JsonV::Str(p@)) && trim(p@).len() > 0,
        r matches Err(_) ==> (args@.get("phrase"@) matches Some(v) ==> (v matches JsonV::Str(s)
            ==> trim(s).len() == 0)),
{
}

/// A conclusion is taken where it says something, as it was given.
pub proof fn lemma_conclusions(t: &RecordConclusionTool, args: &Json, r: Result<String, String>)
    requires
        call_ensures(RecordConclusionTool::plan, (t, args), r),
    ensures
        r matches Ok(p) ==> args@.get("text"@) == Some(JsonV::Str(p@)) && trim(p@).len() > 0,
        r matches Err(_) ==> (args@.get("text"@) matches Some(v) ==> (v matches JsonV::Str(s)
            ==> trim(s).len() == 0)),
{
}

/// A note is marked as it was asked.
pub proof fn lemma_marks(t: &MarkFixmeDoneTool, args: &Json, r: Result<(String, bool), String>)
    requires
        call_ensures(MarkFixmeDoneTool::plan, (t, args), r),
    ensures
        r matches Ok(p) ==> args@.get("id"@) == Some(JsonV::Str(p.0@)) && args@.get("done"@)
            == Some(JsonV::Bool(p.1)),
        r matches Err(_) ==> !(args@.get("id"@) matches Some(v) && v is Str) || !(args@.get(
            "done"@,
        ) matches Some(w) && w is Bool),
{
}

/// Notes are written out, and that there are none is said.
pub proof fn lemma_notes_are_shown(
    a: &[FixmeEntry],
    b: &[ConclusionEntry],
    written: &str,
    r: String,
    s: String,
)
    requires
        call_ensures(format_fixmes, (a, written), r),
        call_ensures(format_conclusions, (b, written), s),
    ensures
        a@.len() > 0 ==> r@ == written@,
        b@.len() > 0 ==> s@ == written@,
        a@.len() == 0 ==> r@ == "No fixmes found."@,
        b@.len() == 0 ==> s@ == "No conclusions recorded yet."@,
{
}

/// A file of notes is blank where nothing is left of it but white space.
pub proof fn lemma_blank_files(content: &str, r: bool)
    requires
        call_ensures(is_blank, (content,), r),
    ensures
        r <==> trim(content@) == Seq::<char>::empty(),
{
    if trim(content@).len() == 0 {
        assert(trim(content@) =~= Seq::<char>::empty());
    }
}

// ---- incidents

/// A report keeps what happened, why, and every call that led to it.
pub proof fn lemma_reports_keep(s: &Surprise, calls: &[String], r: IncidentReport)
    requires
        call_ensures(IncidentReport::from_surprise, (s, calls), r),
    ensures
        r@.kind == s@.kind,
        r@.trigger == s@.trigger,
        r@.calls == texts(calls@),
        s@.trace.len() > 0 ==> r@.trace == s@.trace,
{
}

/// An analysis that failed still tells the incident.
pub proof fn lemma_failed_analyses(error: &str, report: &IncidentReport, r: String)
    requires
        call_ensures(failed_analysis_text, (error, report), r),
    ensures
        r@ == "# Analysis failed: "@ + error@ + "\n\n## IncidentReport\nkind: "@ + report@.kind
            + "\ntrigger: "@ + report@.trigger,
{
}

/// The turns are used up where as many were taken as are allowed.
pub proof fn lemma_turns_used(s: &ConversationState, max: u32, r: bool)
    requires
        call_ensures(ConversationState::max_reached, (s, max), r),
    ensures
        r <==> s@.iteration_count >= max,
{
}

/// A trace of up to 8000 characters is kept whole; of a longer one the first 8000 are kept.
pub proof fn lemma_traces(s: Surprise, text: &str, r: Surprise)
    requires
        call_ensures(Surprise::with_trace, (s, text), r),
    ensures
        text@.len() <= 8000 ==> r@.trace == text@,
        text@.len() > 8000 ==> r@.trace == text@.take(8000) + "...[truncated]"@,
        r@.kind == s@.kind,
        r@.trigger == s@.trigger,
        r@.ms == s@.ms,
{
}

/// The outcome of a tool says what it says, whether it worked, and whether it starts over.
pub proof fn lemma_outcomes(
    text: &str,
    other: &str,
    a: InternalToolOutcome,
    b: InternalToolOutcome,
    c: InternalToolOutcome,
)
    requires
        call_ensures(InternalToolOutcome::ok, (text,), a),
        call_ensures(InternalToolOutcome::err, (text,), b),
        call_ensures(InternalToolOutcome::with_reset, (a, other), c),
    ensures
        a@.text == text@ && b@.text == text@ && c@.text == other@,
        a@.success && !b@.success && c@.success,
        !a@.reset && !b@.reset && c@.reset,
{
}

/// A structured result is asked for of the model with the whole conversation, and by the one tool
/// that takes it.
pub proof fn lemma_objects_are_asked_for(
    a: &LlmActor,
    config: &LlmConfig,
    messages: &Vec<Json>,
    wanted: &GenerateObject,
    r: CanonicalRequest,
)
    requires
        call_ensures(LlmActor::object_request, (a, config, messages, wanted), r),
    ensures
        r@.model == config@.model,
        r@.messages == jsons(messages@),
        r@.tools matches Some(ts) && ts.len() == 1,
        r@.tool_choice == Some(
            JsonV::Object(
                seq![
                    ("type"@, JsonV::Str("function"@)),
                    (
                        "function"@,
                        JsonV::Object(seq![("name"@, JsonV::Str("generate_object"@))]),
                    ),
                ],
            ),
        ),
{
}

// ---- what holds where nothing is set

/// The limits that hold where none is set: 50 turns, three repeats that start with half a second,
/// two minutes for a request and five for a stream, and an answer of up to 64 Ki tokens.
pub proof fn lemma_default_limits(
    turns: u32,
    repeats: u32,
    wait: u64,
    request: u64,
    stream: u64,
    tokens: i32,
    port: u16,
)
    requires
        call_ensures(default_max_iterations, (), turns),
        call_ensures(default_max_retries, (), repeats),
        call_ensures(default_retry_base_delay_ms, (), wait),
        call_ensures(default_request_timeout_secs, (), request),
        call_ensures(default_stream_timeout_secs, (), stream),
        call_ensures(default_llm_max_tokens, (), tokens),
        call_ensures(default_port, (), port),
    ensures
        turns == 50,
        repeats == 3,
        wait * 2 == 1000,
        request == 2 * 60,
        stream == 5 * 60,
        tokens == 64 * 1024,
        port == 3000,
{
}

/// No two of the topics that hold where none is set are the same.
pub proof fn lemma_default_topics_differ(t: Seq<String>, i: int, j: int)
    requires
        t.len() == 14,
        call_ensures(default_log_topic, (), t[0]),
        call_ensures(default_input_topic, (), t[1]),
        call_ensures(default_agent_in_topic, (), t[2]),
        call_ensures(default_agent_out_topic, (), t[3]),
        call_ensures(default_agent_stream_topic, (), t[4]),
        call_ensures(default_llm_in_topic, (), t[5]),
        call_ensures(default_llm_out_topic, (), t[6]),
        call_ensures(default_llm_stream_topic, (), t[7]),
        call_ensures(default_llm_stats_topic, (), t[8]),
        call_ensures(default_llm_tool_calls_topic, (), t[9]),
        call_ensures(default_tool_results_topic, (), t[10]),
        call_ensures(default_user_control_topic, (), t[11]),
        call_ensures(default_ui_user_topic, (), t[12]),
        call_ensures(default_ui_input_topic, (), t[13]),
        0 <= i < j < 14,
    ensures
        t[i]@ != t[j]@,
{
    reveal_strlit("gladiator:log");
    reveal_strlit("gladiator:input");
    reveal_strlit("agent:in");
    reveal_strlit("agent:out");
    reveal_strlit("agent:stream");
    reveal_strlit("llm:in");
    reveal_strlit("llm:out");
    reveal_strlit("llm:stream");
    reveal_strlit("llm:stats");
    reveal_strlit("llm:tool_calls");
    reveal_strlit("tool:results");
    reveal_strlit("user:control");
    reveal_strlit("ui:user");
    reveal_strlit("ui:input");
    assert(t[0]@.len() == 13 && t[1]@.len() == 15 && t[2]@.len() == 8 && t[3]@.len() == 9
        && t[4]@.len() == 12 && t[5]@.len() == 6 && t[6]@.len() == 7 && t[7]@.len() == 10
        && t[8]@.len() == 9 && t[9]@.len() == 14 && t[10]@.len() == 12 && t[11]@.len() == 12
        && t[12]@.len() == 7 && t[13]@.len() == 8);
    assert(t[2]@[0] == 'a' && t[3]@[0] == 'a' && t[4]@[0] == 'a' && t[6]@[0] == 'l' && t[8]@[0]
        == 'l' && t[10]@[0] == 't' && t[11]@[0] == 'u' && t[12]@[0] == 'u' && t[13]@[0] == 'u');
}

} // verus!
