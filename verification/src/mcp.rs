//! Tool servers that run as child processes: which of their tools are offered, how the
//! servers are kept alive, and what is said of them.

use crate::config::McpServerConfig;
use crate::file_tools::concat;
use crate::internal_tools::{param, param_v};
use crate::json::{fields, jsons, lemma_array_view, lemma_object_view, obj1, obj1_v, object_of};
use crate::json::{push_field, text_array1, text_array_v, Json, JsonV};
use crate::string_set::position;
use crate::text::{contains, contains_str, dec, dec_text, join, join_strings, owned, same};
use crate::text::{text_result, texts};
use crate::tool::{SyntaxV, Tool, ToolSyntax};
use crate::transport::power_of_two;
use vstd::prelude::*;

verus! {

/// How many lines of a server's log are kept.
pub const STDERR_RING_CAPACITY: usize = 200;

/// The delay before the first attempt to start a server again, in milliseconds.
pub const RESPAWN_BASE_DELAY_MS: u64 = 500;

/// The longest delay before an attempt, in milliseconds.
pub const RESPAWN_MAX_DELAY_MS: u64 = 30_000;

/// How many attempts in a row may fail.
pub const MAX_RETRIES: usize = 10;

/// Whether a tool is offered: every tool where none is listed, else those listed.
pub open spec fn exposes(cfg: McpServerConfig, name: Seq<char>) -> bool {
    cfg.expose@.len() == 0 || texts(cfg.expose@).contains(name)
}

/// Whether a tool is offered: every tool where none is listed, else those listed.
pub fn should_expose(name: &str, cfg: &McpServerConfig) -> (r: bool)
    ensures
        r == exposes(*cfg, name@),
{
    if cfg.expose.len() == 0 {
        return true;
    }
    match position(&cfg.expose, name) {
        Some(i) => {
            assert(texts(cfg.expose@)[i as int] == name@);
            true
        },
        None => {
            assert(!texts(cfg.expose@).contains(name@));
            false
        },
    }
}

/// Whether a server is started on launch: it is configured so, and has a command.
pub fn starts_on_launch(cfg: &McpServerConfig) -> (r: bool)
    ensures
        r == (cfg.default && cfg.command@.len() > 0),
{
    cfg.default && cfg.command.len() > 0
}

/// A schema in which the schema that allows everything is an empty object.
pub open spec fn normalized(v: JsonV) -> JsonV
    decreases v,
{
    match v {
        JsonV::Bool(true) => JsonV::Object(Seq::empty()),
        JsonV::Object(o) => JsonV::Object(
            Seq::new(
                o.len(),
                |i: int|
                    if 0 <= i < o.len() {
                        (o[i].0, normalized(o[i].1))
                    } else {
                        (Seq::empty(), JsonV::Null)
                    },
            ),
        ),
        JsonV::Array(a) => JsonV::Array(
            Seq::new(
                a.len(),
                |i: int|
                    if 0 <= i < a.len() {
                        normalized(a[i])
                    } else {
                        JsonV::Null
                    },
            ),
        ),
        other => other,
    }
}

/// A schema in which the schema that allows everything is an empty object.
pub fn normalize_schema(value: &Json) -> (r: Json)
    ensures
        r@ == normalized(value@),
    decreases value,
{
    match value {
        Json::Bool(b) => if *b {
            Json::object()
        } else {
            Json::Bool(false)
        },
        Json::Object(o) => {
            proof {
                lemma_object_view(*o);
            }
            let mut out: Vec<(String, Json)> = Vec::new();
            let mut i: usize = 0;
            while i < o.len()
                invariant
                    i <= o@.len(),
                    *value == Json::Object(*o),
                    out@.len() == i,
                    forall|j: int|
                        0 <= j < i ==> (#[trigger] out@[j]).0@ == o@[j].0@ && out@[j].1@
                            == normalized(o@[j].1@),
                decreases o.len() - i,
            {
                proof {
                    assert(decreases_to!(value => value->Object_0));
                    assert(decreases_to!(value->Object_0 => value->Object_0@));
                    assert(decreases_to!(o@ => o@[i as int]));
                    assert(decreases_to!(o@[i as int] => o@[i as int].1));
                }
                out.push((o[i].0.clone(), normalize_schema(&o[i].1)));
                i = i + 1;
            }
            proof {
                lemma_object_view(out);
                assert(fields(out@) =~= normalized(value@)->Object_0);
            }
            Json::Object(out)
        },
        Json::Array(a) => {
            proof {
                lemma_array_view(*a);
            }
            let mut out: Vec<Json> = Vec::new();
            let mut i: usize = 0;
            while i < a.len()
                invariant
                    i <= a@.len(),
                    *value == Json::Array(*a),
                    out@.len() == i,
                    forall|j: int| 0 <= j < i ==> (#[trigger] out@[j])@ == normalized(a@[j]@),
                decreases a.len() - i,
            {
                proof {
                    assert(decreases_to!(value => value->Array_0));
                    assert(decreases_to!(value->Array_0 => value->Array_0@));
                    assert(decreases_to!(a@ => a@[i as int]));
                }
                out.push(normalize_schema(&a[i]));
                i = i + 1;
            }
            proof {
                lemma_array_view(out);
                assert(jsons(out@) =~= normalized(value@)->Array_0);
            }
            Json::Array(out)
        },
        other => other.clone(),
    }
}

/// To normalise a schema twice changes nothing more.
pub proof fn lemma_normalizing_is_idempotent(v: JsonV)
    ensures
        normalized(normalized(v)) == normalized(v),
    decreases v,
{
    match v {
        JsonV::Object(o) => {
            let n = normalized(v)->Object_0;
            assert forall|i: int| 0 <= i < o.len() implies normalized((#[trigger] n[i]).1) == n[i].1 by {
                assert(decreases_to!(o => o[i]));
                assert(decreases_to!(o[i] => o[i].1));
                lemma_normalizing_is_idempotent(o[i].1);
            }
            assert(normalized(normalized(v))->Object_0 =~= n);
        },
        JsonV::Array(a) => {
            let n = normalized(v)->Array_0;
            assert forall|i: int| 0 <= i < a.len() implies normalized(#[trigger] n[i]) == n[i] by {
                assert(decreases_to!(a => a[i]));
                lemma_normalizing_is_idempotent(a[i]);
            }
            assert(normalized(normalized(v))->Array_0 =~= n);
        },
        JsonV::Bool(true) => {
            assert(normalized(normalized(v))->Object_0 =~= Seq::empty());
        },
        _ => {},
    }
}

/// A tool of a server.
#[derive(Debug)]
pub struct McpTool {
    tool_name: String,
    tool_description: String,
    tool_parameters: Json,
}

impl View for McpTool {
    type V = SyntaxV;

    closed spec fn view(&self) -> SyntaxV {
        SyntaxV {
            name: self.tool_name@,
            description: self.tool_description@,
            parameters: self.tool_parameters@,
        }
    }
}

/// What a call of a tool brings: its texts, one to a line; an error where the server says so.
pub open spec fn call_result(pieces: Seq<Seq<char>>, is_error: Option<bool>) -> Result<
    Seq<char>,
    Seq<char>,
> {
    if is_error == Some(true) {
        Err("MCP error: "@ + join(pieces, "\n"@))
    } else {
        Ok(join(pieces, "\n"@))
    }
}

impl McpTool {
    /// A tool as its server describes it.
    pub fn new(name: &str, description: Option<&str>, input_schema: &Json) -> (r: McpTool)
        ensures
            r@ == (SyntaxV {
                name: name@,
                description: match description {
                    Some(d) => d@,
                    None => ""@,
                },
                parameters: normalized(input_schema@),
            }),
    {
        McpTool {
            tool_name: owned(name),
            tool_description: owned(
                match description {
                    Some(d) => d,
                    None => "",
                },
            ),
            tool_parameters: normalize_schema(input_schema),
        }
    }

    /// The arguments of a call: an object, or none.
    pub fn arguments(&self, args: &Json) -> (r: Json)
        ensures
            r@ == if args@ is Object {
                args@
            } else {
                JsonV::Object(Seq::empty())
            },
    {
        match args {
            Json::Object(_) => args.clone(),
            _ => Json::object(),
        }
    }

    /// What a call of the tool brings.
    pub fn fold_result(&self, pieces: &Vec<String>, is_error: Option<bool>) -> (r: Result<
        String,
        String,
    >)
        ensures
            text_result(r) == call_result(texts(pieces@), is_error),
    {
        let content = join_strings(pieces, "\n");
        match is_error {
            Some(true) => Err(concat("MCP error: ", content.as_str())),
            _ => Ok(content),
        }
    }

    /// What is said of a call that failed.
    pub fn call_failed(&self, error: &str) -> (r: String)
        ensures
            r@ == "MCP call failed: "@ + error@,
    {
        concat("MCP call failed: ", error)
    }

    /// What is said of a call that took too long.
    pub fn timed_out(&self) -> (r: String)
        ensures
            r@ == "MCP tool call timed out after 10 seconds"@,
    {
        owned("MCP tool call timed out after 10 seconds")
    }

    /// What is said of a call while the server is not running.
    pub fn not_running(&self) -> (r: String)
        ensures
            r@ == "MCP server '"@ + self@.name + "' is not running"@,
    {
        let mut m = concat("MCP server '", self.tool_name.as_str());
        m.append("' is not running");
        m
    }
}

impl Tool for McpTool {
    fn name(&self) -> (r: &str)
        ensures
            r@ == self@.name,
    {
        self.tool_name.as_str()
    }

    fn description(&self) -> (r: &str)
        ensures
            r@ == self@.description,
    {
        self.tool_description.as_str()
    }

    fn parameters(&self) -> (r: Json)
        ensures
            r@ == self@.parameters,
    {
        self.tool_parameters.clone()
    }
}

/// The handler of messages from a server; it needs none.
#[derive(Clone, Copy, Debug)]
pub struct McpClientHandler;

/// What starts a server.
#[derive(Debug)]
pub struct McpServerRunner {
    prefix: String,
    config: McpServerConfig,
}

impl McpServerRunner {
    /// The name of the server.
    pub closed spec fn server(&self) -> Seq<char> {
        self.prefix@
    }

    /// The configuration of the server.
    pub closed spec fn configuration(&self) -> McpServerConfig {
        self.config
    }

    pub fn new(prefix: String, config: McpServerConfig) -> (r: McpServerRunner)
        ensures
            r.server() == prefix@,
            r.configuration() == config,
    {
        McpServerRunner { prefix, config }
    }

    /// The name of the server.
    pub fn prefix(&self) -> (r: &str)
        ensures
            r@ == self.server(),
    {
        self.prefix.as_str()
    }

    /// The command that starts the server: the program and its arguments.
    pub fn command(&self) -> (r: Result<&Vec<String>, String>)
        ensures
            match r {
                Ok(c) => c@ == self.configuration().command@ && c@.len() > 0,
                Err(e) => self.configuration().command@.len() == 0 && e@
                    == "MCP server command is empty"@,
            },
    {
        if self.config.command.len() == 0 {
            return Err(owned("MCP server command is empty"));
        }
        Ok(&self.config.command)
    }

    /// The tools that are offered, of those that the server has.
    pub fn offered(&self, tools: &Vec<McpTool>) -> (r: Vec<ToolSyntax>)
        ensures
            crate::tool::syntaxes(r@) == offered_tools(
                self.configuration(),
                mcp_tools(tools@),
                tools@.len() as int,
            ),
    {
        let mut out: Vec<ToolSyntax> = Vec::new();
        let ghost tv = mcp_tools(tools@);
        let mut i: usize = 0;
        assert(crate::tool::syntaxes(out@) =~= Seq::empty());
        while i < tools.len()
            invariant
                i <= tools@.len(),
                tv == mcp_tools(tools@),
                crate::tool::syntaxes(out@) == offered_tools(
                    self.configuration(),
                    tv,
                    i as int,
                ),
            decreases tools.len() - i,
        {
            let t = &tools[i];
            assert(tv[i as int] == t@);
            if should_expose(t.tool_name.as_str(), &self.config) {
                let ghost before = crate::tool::syntaxes(out@);
                out.push(
                    ToolSyntax {
                        name: t.tool_name.clone(),
                        description: t.tool_description.clone(),
                        parameters: t.tool_parameters.clone(),
                    },
                );
                assert(crate::tool::syntaxes(out@) =~= before.push(t@));
            }
            i = i + 1;
        }
        out
    }
}

/// The models of the tools of `s`.
pub open spec fn mcp_tools(s: Seq<McpTool>) -> Seq<SyntaxV> {
    s.map_values(|t: McpTool| t@)
}

/// Of the first `n` tools those that are offered.
pub open spec fn offered_tools(cfg: McpServerConfig, tools: Seq<SyntaxV>, n: int) -> Seq<SyntaxV>
    decreases n,
{
    if n <= 0 {
        Seq::empty()
    } else if exposes(cfg, tools[n - 1].name) {
        offered_tools(cfg, tools, n - 1).push(tools[n - 1])
    } else {
        offered_tools(cfg, tools, n - 1)
    }
}

/// The last lines of a server's log.
#[derive(Debug)]
pub struct StderrLogRing {
    lines: Vec<String>,
}

impl View for StderrLogRing {
    type V = Seq<Seq<char>>;

    closed spec fn view(&self) -> Seq<Seq<char>> {
        texts(self.lines@)
    }
}

/// The log after one more line: at its capacity the oldest line goes.
pub open spec fn logged(s: Seq<Seq<char>>, line: Seq<char>) -> Seq<Seq<char>> {
    if s.len() >= STDERR_RING_CAPACITY {
        s.drop_first().push(line)
    } else {
        s.push(line)
    }
}

/// The last `n` lines, the last first.
pub open spec fn last_lines(s: Seq<Seq<char>>, n: int) -> Seq<Seq<char>> {
    Seq::new(
        if n < s.len() {
            n as nat
        } else {
            s.len()
        },
        |i: int| s[s.len() - 1 - i],
    )
}

impl StderrLogRing {
    #[verifier::type_invariant]
    spec fn bounded(self) -> bool {
        self.lines@.len() <= STDERR_RING_CAPACITY
    }

    pub fn new() -> (r: StderrLogRing)
        ensures
            r@ == Seq::<Seq<char>>::empty(),
    {
        let r = StderrLogRing { lines: Vec::new() };
        assert(r@ =~= Seq::empty());
        r
    }

    /// Adds a line; no more than the capacity are kept.
    pub fn push(&mut self, line: String)
        ensures
            final(self)@ == logged(old(self)@, line@),
            final(self)@.len() <= STDERR_RING_CAPACITY,
    {
        proof {
            use_type_invariant(&*self);
        }
        let ghost before = self@;
        let mut lines: Vec<String> = Vec::new();
        std::mem::swap(&mut lines, &mut self.lines);
        if lines.len() >= STDERR_RING_CAPACITY {
            lines.remove(0);
        }
        lines.push(line);
        assert(texts(lines@) =~= logged(before, line@));
        self.lines = lines;
    }

    /// The last `n` lines, the last first.
    pub fn tail(&self, n: usize) -> (r: Vec<String>)
        ensures
            texts(r@) == last_lines(self@, n as int),
    {
        let mut out: Vec<String> = Vec::new();
        let total: usize = self.lines.len();
        let count: usize = if n < total {
            n
        } else {
            total
        };
        let mut i: usize = 0;
        while i < count
            invariant
                i <= count <= total,
                total == self.lines@.len(),
                out@.len() == i,
                forall|j: int|
                    0 <= j < i ==> (#[trigger] out@[j])@ == self.lines@[total - 1 - j]@,
            decreases count - i,
        {
            out.push(self.lines[total - 1 - i].clone());
            i = i + 1;
        }
        assert(texts(out@) =~= last_lines(self@, n as int));
        out
    }
}

/// How a server stands.
#[derive(Debug, PartialEq, Eq)]
pub enum ServerStatus {
    Starting,
    Running,
    Restarting { attempt: usize },
    Disabled { reason: String },
    Crashed,
}

/// The model of a [`ServerStatus`].
pub enum StatusV {
    Starting,
    Running,
    Restarting { attempt: usize },
    Disabled { reason: Seq<char> },
    Crashed,
}

impl View for ServerStatus {
    type V = StatusV;

    open spec fn view(&self) -> StatusV {
        match self {
            ServerStatus::Starting => StatusV::Starting,
            ServerStatus::Running => StatusV::Running,
            ServerStatus::Restarting { attempt } => StatusV::Restarting { attempt: *attempt },
            ServerStatus::Disabled { reason } => StatusV::Disabled { reason: reason@ },
            ServerStatus::Crashed => StatusV::Crashed,
        }
    }
}

impl StatusV {
    /// The status in words.
    pub open spec fn words(self) -> Seq<char> {
        match self {
            StatusV::Starting => "starting"@,
            StatusV::Running => "running"@,
            StatusV::Restarting { attempt } => "restarting(attempt="@ + dec(attempt as int) + ")"@,
            StatusV::Disabled { reason } => "disabled("@ + reason + ")"@,
            StatusV::Crashed => "crashed"@,
        }
    }
}

impl ServerStatus {
    /// The status in words.
    pub fn message(&self) -> (r: String)
        ensures
            r@ == self@.words(),
    {
        match self {
            ServerStatus::Starting => owned("starting"),
            ServerStatus::Running => owned("running"),
            ServerStatus::Restarting { attempt } => {
                let mut m = concat("restarting(attempt=", dec_text(*attempt as u64).as_str());
                m.append(")");
                m
            },
            ServerStatus::Disabled { reason } => {
                let mut m = concat("disabled(", reason.as_str());
                m.append(")");
                m
            },
            ServerStatus::Crashed => owned("crashed"),
        }
    }
}

/// A server as it is looked after.
#[derive(Debug)]
pub struct McpServerState {
    pub name: String,
    pub status: ServerStatus,
    /// The attempts since the server last ran, as they are reported.
    pub retry_count: usize,
    /// The attempts in a row that failed.
    pub failures: usize,
    /// The tools that the server offered when it was last started.
    pub tool_count: usize,
    pub log: StderrLogRing,
}

/// The model of a [`McpServerState`].
#[verifier::ext_equal]
pub struct ServerV {
    pub name: Seq<char>,
    pub status: StatusV,
    pub retry_count: int,
    pub failures: int,
    pub tool_count: int,
    pub log: Seq<Seq<char>>,
}

impl View for McpServerState {
    type V = ServerV;

    open spec fn view(&self) -> ServerV {
        ServerV {
            name: self.name@,
            status: self.status@,
            retry_count: self.retry_count as int,
            failures: self.failures as int,
            tool_count: self.tool_count as int,
            log: self.log@,
        }
    }
}

/// What looking after a server calls for.
#[derive(Clone, Copy, Debug, PartialEq, Eq, Structural)]
pub enum Supervision {
    /// Nothing now.
    Wait,
    /// Start the server again after so many milliseconds.
    Respawn { delay_ms: u64 },
    /// Look after the server no longer.
    Stop,
}

/// The delay before an attempt: it doubles from one to the next, up to the longest.
pub open spec fn backoff(attempt: int) -> int {
    let d = RESPAWN_BASE_DELAY_MS * power_of_two(
        if attempt > 1 {
            (attempt - 1) as nat
        } else {
            0
        },
    );
    if d > RESPAWN_MAX_DELAY_MS {
        RESPAWN_MAX_DELAY_MS as int
    } else {
        d
    }
}

/// The delay before an attempt.
pub fn respawn_delay_ms(attempt: usize) -> (r: u64)
    ensures
        r == backoff(attempt as int),
        RESPAWN_BASE_DELAY_MS <= r <= RESPAWN_MAX_DELAY_MS,
{
    let mut d: u64 = RESPAWN_BASE_DELAY_MS;
    let mut i: usize = 1;
    while i < attempt
        invariant
            1 <= i,
            i <= attempt || i == 1,
            d == backoff(i as int),
            RESPAWN_BASE_DELAY_MS <= d <= RESPAWN_MAX_DELAY_MS,
        decreases attempt - i,
    {
        assert(power_of_two(i as nat) == 2 * power_of_two((i - 1) as nat));
        d = if 2 * d > RESPAWN_MAX_DELAY_MS {
            RESPAWN_MAX_DELAY_MS
        } else {
            2 * d
        };
        i = i + 1;
    }
    d
}

impl ServerV {
    /// A look at a server: nothing while it starts or runs; after too many failures it is
    /// disabled, else started again.
    pub open spec fn look(self) -> (ServerV, Supervision) {
        match self.status {
            StatusV::Disabled { .. } => (self, Supervision::Stop),
            StatusV::Running => (self, Supervision::Wait),
            StatusV::Starting => (self, Supervision::Wait),
            _ => if self.failures >= MAX_RETRIES {
                (
                    ServerV {
                        status: StatusV::Disabled {
                            reason: "exceeded "@ + dec(MAX_RETRIES as int) + " retries"@,
                        },
                        ..self
                    },
                    Supervision::Stop,
                )
            } else {
                let attempt = self.failures + 1;
                (
                    ServerV {
                        status: StatusV::Restarting { attempt: attempt as usize },
                        retry_count: attempt,
                        ..self
                    },
                    Supervision::Respawn { delay_ms: backoff(attempt) as u64 },
                )
            },
        }
    }

    /// The server was started again, with so many tools.
    pub open spec fn respawned(self, tools: usize) -> ServerV {
        ServerV {
            status: StatusV::Running,
            retry_count: 0,
            failures: 0,
            tool_count: tools as int,
            ..self
        }
    }

    /// The server could not be started again.
    pub open spec fn respawn_failed(self, error: Seq<char>) -> ServerV {
        ServerV {
            status: StatusV::Crashed,
            failures: self.failures + 1,
            log: logged(
                self.log,
                "[respawn-failure] attempt "@ + dec(self.failures + 1) + "/"@ + dec(
                    MAX_RETRIES as int,
                ) + ": "@ + error,
            ),
            ..self
        }
    }
}

impl McpServerState {
    /// A server that is being started.
    pub fn new(name: String) -> (r: McpServerState)
        ensures
            r@ == (ServerV {
                name: name@,
                status: StatusV::Starting,
                retry_count: 0,
                failures: 0,
                tool_count: 0,
                log: Seq::empty(),
            }),
    {
        McpServerState {
            name,
            status: ServerStatus::Starting,
            retry_count: 0,
            failures: 0,
            tool_count: 0,
            log: StderrLogRing::new(),
        }
    }

    /// The server's first start: the number of its tools, or nothing where it failed.
    pub fn on_started(&mut self, tools: Option<usize>)
        ensures
            final(self)@ == match tools {
                Some(n) => ServerV {
                    status: StatusV::Running,
                    retry_count: 0,
                    tool_count: n as int,
                    ..old(self)@
                },
                None => ServerV { status: StatusV::Crashed, ..old(self)@ },
            },
    {
        match tools {
            Some(n) => {
                self.status = ServerStatus::Running;
                self.retry_count = 0;
                self.tool_count = n;
            },
            None => {
                self.status = ServerStatus::Crashed;
            },
        }
    }

    /// The server is not started on launch. It stays disabled until a restart is asked for.
    pub fn hold_back(&mut self)
        ensures
            final(self)@ == (ServerV {
                status: StatusV::Disabled { reason: "not started on launch"@ },
                ..old(self)@
            }),
    {
        self.status = ServerStatus::Disabled { reason: owned("not started on launch") };
    }

    /// A look at the server: what it calls for.
    pub fn supervise(&mut self) -> (r: Supervision)
        ensures
            (final(self)@, r) == old(self)@.look(),
    {
        match &self.status {
            ServerStatus::Disabled { .. } => return Supervision::Stop,
            ServerStatus::Running => return Supervision::Wait,
            ServerStatus::Starting => return Supervision::Wait,
            _ => {},
        }
        if self.failures >= MAX_RETRIES {
            let mut reason = concat("exceeded ", dec_text(MAX_RETRIES as u64).as_str());
            reason.append(" retries");
            self.status = ServerStatus::Disabled { reason };
            return Supervision::Stop;
        }
        let attempt: usize = self.failures + 1;
        self.retry_count = attempt;
        self.status = ServerStatus::Restarting { attempt };
        Supervision::Respawn { delay_ms: respawn_delay_ms(attempt) }
    }

    /// An attempt to start the server again succeeded, with so many tools.
    pub fn on_respawned(&mut self, tools: usize)
        ensures
            final(self)@ == old(self)@.respawned(tools),
    {
        self.tool_count = tools;
        self.status = ServerStatus::Running;
        self.retry_count = 0;
        self.failures = 0;
    }

    /// An attempt to start the server again failed.
    pub fn on_respawn_failed(&mut self, error: &str)
        requires
            old(self).failures < usize::MAX,
        ensures
            final(self)@ == old(self)@.respawn_failed(error@),
    {
        let attempt: usize = self.failures + 1;
        self.status = ServerStatus::Crashed;
        self.failures = attempt;
        let mut line = concat("[respawn-failure] attempt ", dec_text(attempt as u64).as_str());
        line.append("/");
        line.append(dec_text(MAX_RETRIES as u64).as_str());
        line.append(": ");
        line.append(error);
        self.log.push(line);
    }

    /// A line that the server wrote to its error output, at a time given as text; whether it
    /// is to be shown as a warning.
    pub fn on_stderr(&mut self, time: &str, text: &str) -> (r: bool)
        ensures
            final(self)@ == (ServerV {
                log: logged(
                    old(self)@.log,
                    "["@ + time@ + "] [mcp:"@ + old(self)@.name + ":stderr] "@ + text@,
                ),
                ..old(self)@
            }),
            r == (contains(text@, "ERROR"@) || contains(text@, "error"@)),
    {
        let mut line = concat("[", time);
        line.append("] [mcp:");
        line.append(self.name.as_str());
        line.append(":stderr] ");
        line.append(text);
        self.log.push(line);
        contains_str(text, "ERROR") || contains_str(text, "error")
    }

    /// The server is to be started again at once.
    pub fn begin_restart(&mut self)
        ensures
            final(self)@ == (ServerV {
                status: StatusV::Restarting { attempt: 1 },
                retry_count: 0,
                ..old(self)@
            }),
    {
        self.status = ServerStatus::Restarting { attempt: 1 };
        self.retry_count = 0;
    }

    /// The restart that was asked for, by the number of the server's tools or why it failed:
    /// what is answered.
    pub fn finish_restart(&mut self, result: Result<usize, &str>) -> (r: Result<String, String>)
        ensures
            match result {
                Ok(n) => (r matches Ok(m) && m@ == "Restarted MCP server '"@ + old(self)@.name
                    + "'"@) && final(self)@ == (ServerV {
                    status: StatusV::Running,
                    tool_count: n as int,
                    ..old(self)@
                }),
                Err(e) => (r matches Err(m) && m@ == "Failed to restart '"@ + old(self)@.name
                    + "': "@ + e@) && final(self)@ == (ServerV {
                    status: StatusV::Crashed,
                    log: logged(old(self)@.log, "[manual-restart-failure] "@ + e@),
                    ..old(self)@
                }),
            },
    {
        match result {
            Ok(n) => {
                self.status = ServerStatus::Running;
                self.tool_count = n;
                let mut m = concat("Restarted MCP server '", self.name.as_str());
                m.append("'");
                Ok(m)
            },
            Err(e) => {
                self.status = ServerStatus::Crashed;
                self.log.push(concat("[manual-restart-failure] ", e));
                let mut m = concat("Failed to restart '", self.name.as_str());
                m.append("': ");
                m.append(e);
                Err(m)
            },
        }
    }

    /// Disables the server: what is answered.
    pub fn disable(&mut self) -> (r: String)
        ensures
            final(self)@ == (ServerV {
                status: StatusV::Disabled { reason: "disabled via mcp_disable tool"@ },
                ..old(self)@
            }),
            r@ == "Disabled MCP server '"@ + old(self)@.name + "'"@,
    {
        self.status = ServerStatus::Disabled { reason: owned("disabled via mcp_disable tool") };
        let mut m = concat("Disabled MCP server '", self.name.as_str());
        m.append("'");
        m
    }
}

/// All servers.
#[derive(Debug)]
pub struct McpManager {
    pub servers: Vec<McpServerState>,
}

/// The models of the servers of `s`.
pub open spec fn servers(s: Seq<McpServerState>) -> Seq<ServerV> {
    s.map_values(|x: McpServerState| x@)
}

/// The position, from `i` on, of the server with the name.
pub open spec fn server_from(s: Seq<ServerV>, name: Seq<char>, i: int) -> Option<int>
    decreases s.len() - i,
{
    if i < 0 || i >= s.len() {
        None
    } else if s[i].name == name {
        Some(i)
    } else {
        server_from(s, name, i + 1)
    }
}

/// The line of a server in the list of all.
pub open spec fn status_line(s: ServerV) -> Seq<char> {
    "- "@ + s.name + " ["@ + s.status.words() + "], retries="@ + dec(s.retry_count) + ", tools="@
        + dec(s.tool_count) + "\n"@
}

/// The lines of the first `n` servers, or of those among them with the name.
pub open spec fn status_lines(s: Seq<ServerV>, filter: Option<Seq<char>>, n: int) -> Seq<char>
    decreases n,
{
    if n <= 0 {
        Seq::empty()
    } else {
        let before = status_lines(s, filter, n - 1);
        if filter is None || filter == Some(s[n - 1].name) {
            before + status_line(s[n - 1])
        } else {
            before
        }
    }
}

/// The first `n` lines, each ended.
pub open spec fn ended_lines(lines: Seq<Seq<char>>, n: int) -> Seq<char>
    decreases n,
{
    if n <= 0 {
        Seq::empty()
    } else {
        ended_lines(lines, n - 1) + lines[n - 1] + "\n"@
    }
}

/// The last line of the log of each of the first `n` servers that have one.
pub open spec fn last_logs(s: Seq<ServerV>, n: int) -> Seq<char>
    decreases n,
{
    if n <= 0 {
        Seq::empty()
    } else if s[n - 1].log.len() > 0 {
        last_logs(s, n - 1) + "  last log: "@ + s[n - 1].log.last() + "\n"@
    } else {
        last_logs(s, n - 1)
    }
}

/// What is said of the servers: of all, with the last line of each log, or of one, with the
/// last lines of its log.
pub open spec fn status_report(s: Seq<ServerV>, filter: Option<Seq<char>>) -> Seq<char> {
    let head = status_lines(s, filter, s.len() as int);
    match filter {
        None => head + last_logs(s, s.len() as int),
        Some(name) => match server_from(s, name, 0) {
            Some(i) => {
                let lines = last_lines(s[i].log, 20);
                head + "\nRecent stderr logs:\n"@ + ended_lines(lines, lines.len() as int)
            },
            None => head,
        },
    }
}

impl McpManager {
    /// The place of the server with the name.
    pub fn find(&self, name: &str) -> (r: Option<usize>)
        ensures
            match r {
                Some(i) => i < self.servers@.len() && server_from(servers(self.servers@), name@, 0)
                    == Some(i as int),
                None => server_from(servers(self.servers@), name@, 0) is None,
            },
    {
        let mut i: usize = 0;
        while i < self.servers.len()
            invariant
                i <= self.servers@.len(),
                server_from(servers(self.servers@), name@, 0) == server_from(
                    servers(self.servers@),
                    name@,
                    i as int,
                ),
            decreases self.servers.len() - i,
        {
            assert(servers(self.servers@)[i as int].name == self.servers@[i as int].name@);
            if same(self.servers[i].name.as_str(), name) {
                return Some(i);
            }
            i = i + 1;
        }
        None
    }

    /// The server that the arguments name.
    pub fn named(&self, args: &Json) -> (r: Result<usize, String>)
        ensures
            match args@.str_at("server_name"@) {
                None => r matches Err(e) && e@ == "missing server_name"@,
                Some(n) => match server_from(servers(self.servers@), n, 0) {
                    Some(i) => r == Ok::<usize, String>(i as usize) && i < self.servers@.len(),
                    None => r matches Err(e) && e@ == "no MCP server named '"@ + n + "'"@,
                },
            },
    {
        let name = match args.str_at("server_name") {
            Some(n) => n,
            None => return Err(owned("missing server_name")),
        };
        match self.find(name) {
            Some(i) => Ok(i),
            None => {
                let mut e = concat("no MCP server named '", name);
                e.append("'");
                Err(e)
            },
        }
    }

    /// What is said of the servers.
    pub fn status(&self, filter: Option<&str>) -> (r: String)
        ensures
            r@ == status_report(servers(self.servers@), crate::text::opt_str(filter)),
    {
        let ghost sv = servers(self.servers@);
        let ghost fv = crate::text::opt_str(filter);
        let mut out = String::new();
        let mut i: usize = 0;
        assert(out@ =~= Seq::empty());
        while i < self.servers.len()
            invariant
                i <= self.servers@.len(),
                sv == servers(self.servers@),
                fv == crate::text::opt_str(filter),
                out@ == status_lines(sv, fv, i as int),
            decreases self.servers.len() - i,
        {
            let s = &self.servers[i];
            assert(sv[i as int] == s@);
            let shown = match filter {
                Some(f) => same(f, s.name.as_str()),
                None => true,
            };
            if shown {
                let mut line = concat("- ", s.name.as_str());
                line.append(" [");
                line.append(s.status.message().as_str());
                line.append("], retries=");
                line.append(dec_text(s.retry_count as u64).as_str());
                line.append(", tools=");
                line.append(dec_text(s.tool_count as u64).as_str());
                line.append("\n");
                out.append(line.as_str());
            }
            i = i + 1;
        }
        match filter {
            Some(name) => {
                if let Some(k) = self.find(name) {
                    assert(sv[k as int] == self.servers@[k as int]@);
                    out.append("\nRecent stderr logs:\n");
                    let lines = self.servers[k].log.tail(20);
                    let logs = end_lines(&lines);
                    out.append(logs.as_str());
                }
            },
            None => {
                let logs = self.last_log_lines();
                out.append(logs.as_str());
            },
        }
        out
    }

    fn last_log_lines(&self) -> (r: String)
        ensures
            r@ == last_logs(servers(self.servers@), self.servers@.len() as int),
    {
        let ghost sv = servers(self.servers@);
        let mut out = String::new();
        let mut i: usize = 0;
        assert(out@ =~= Seq::empty());
        while i < self.servers.len()
            invariant
                i <= self.servers@.len(),
                sv == servers(self.servers@),
                out@ == last_logs(sv, i as int),
            decreases self.servers.len() - i,
        {
            assert(sv[i as int] == self.servers@[i as int]@);
            let last = self.servers[i].log.tail(1);
            let ghost log = sv[i as int].log;
            assert(texts(last@) == last_lines(log, 1));
            assert(last@.len() == texts(last@).len());
            if last.len() > 0 {
                assert(texts(last@)[0] == last@[0]@);
                assert(last@[0]@ == log.last());
                out.append("  last log: ");
                out.append(last[0].as_str());
                out.append("\n");
            }
            i = i + 1;
        }
        out
    }
}

fn end_lines(lines: &Vec<String>) -> (r: String)
    ensures
        r@ == ended_lines(texts(lines@), lines@.len() as int),
{
    let mut out = String::new();
    let mut i: usize = 0;
    assert(out@ =~= Seq::empty());
    while i < lines.len()
        invariant
            i <= lines@.len(),
            out@ == ended_lines(texts(lines@), i as int),
        decreases lines.len() - i,
    {
        assert(texts(lines@)[i as int] == lines@[i as int]@);
        out.append(lines[i].as_str());
        out.append("\n");
        i = i + 1;
    }
    out
}

/// The parameters of a tool that names a server.
pub open spec fn server_parameters(description: Seq<char>, required: bool) -> JsonV {
    JsonV::Object(
        seq![
            ("type"@, JsonV::Str("object"@)),
            ("properties"@, obj1_v("server_name"@, param_v("string"@, description))),
        ] + (if required {
            seq![("required"@, text_array_v(seq!["server_name"@]))]
        } else {
            Seq::empty()
        }) + seq![("additionalProperties"@, JsonV::Bool(false))],
    )
}

fn server_parameters_json(description: &str, required: bool) -> (r: Json)
    ensures
        r@ == server_parameters(description@, required),
{
    let mut o: Vec<(String, Json)> = Vec::new();
    push_field(&mut o, "type", Json::text("object"));
    push_field(&mut o, "properties", obj1("server_name", param("string", description)));
    if required {
        push_field(&mut o, "required", text_array1("server_name"));
    }
    push_field(&mut o, "additionalProperties", Json::Bool(false));
    assert(fields(o@) =~= server_parameters(description@, required)->Object_0);
    object_of(o)
}

/// Lists the servers.
#[derive(Clone, Copy, Debug)]
pub struct McpStatusTool;

impl McpStatusTool {
    pub fn new() -> (r: McpStatusTool)
        ensures
            r == McpStatusTool,
    {
        McpStatusTool
    }

    /// What is answered.
    pub fn execute(&self, manager: &McpManager, args: &Json) -> (r: String)
        ensures
            r@ == status_report(servers(manager.servers@), args@.str_at("server_name"@)),
    {
        manager.status(args.str_at("server_name"))
    }
}

impl Tool for McpStatusTool {
    fn name(&self) -> (r: &str)
        ensures
            r@ == "mcp_status"@,
    {
        "mcp_status"
    }

    fn description(&self) -> (r: &str)
        ensures
            r@ == "List all MCP servers managed by gladiator, their current status (running/restarting/disabled/crashed), tool count, and recent stderr log lines. Pass an optional server_name to show detailed logs for one server."@,
    {
        "List all MCP servers managed by gladiator, their current status (running/restarting/disabled/crashed), tool count, and recent stderr log lines. Pass an optional server_name to show detailed logs for one server."
    }

    fn parameters(&self) -> (r: Json)
        ensures
            r@ == server_parameters(
                "Optional: name of a specific MCP server (e.g. 'mcp-rlsp') to show its recent stderr logs"@,
                false,
            ),
    {
        server_parameters_json(
            "Optional: name of a specific MCP server (e.g. 'mcp-rlsp') to show its recent stderr logs",
            false,
        )
    }
}

/// Starts a server again.
#[derive(Clone, Copy, Debug)]
pub struct McpRestartTool;

impl McpRestartTool {
    pub fn new() -> (r: McpRestartTool)
        ensures
            r == McpRestartTool,
    {
        McpRestartTool
    }
}

impl Tool for McpRestartTool {
    fn name(&self) -> (r: &str)
        ensures
            r@ == "mcp_restart"@,
    {
        "mcp_restart"
    }

    fn description(&self) -> (r: &str)
        ensures
            r@ == "Force-restart a named MCP server. Kills the current child process (if any), respawns with same config, re-discovers tools, and hot-swaps the peer so existing tool calls use the new instance. Use after rebuilding an MCP binary to pick up changes."@,
    {
        "Force-restart a named MCP server. Kills the current child process (if any), respawns with same config, re-discovers tools, and hot-swaps the peer so existing tool calls use the new instance. Use after rebuilding an MCP binary to pick up changes."
    }

    fn parameters(&self) -> (r: Json)
        ensures
            r@ == server_parameters("Name of the MCP server to restart (e.g. 'mcp-rlsp')"@, true),
    {
        server_parameters_json("Name of the MCP server to restart (e.g. 'mcp-rlsp')", true)
    }
}

/// Disables a server.
#[derive(Clone, Copy, Debug)]
pub struct McpDisableTool;

impl McpDisableTool {
    pub fn new() -> (r: McpDisableTool)
        ensures
            r == McpDisableTool,
    {
        McpDisableTool
    }
}

impl Tool for McpDisableTool {
    fn name(&self) -> (r: &str)
        ensures
            r@ == "mcp_disable"@,
    {
        "mcp_disable"
    }

    fn description(&self) -> (r: &str)
        ensures
            r@ == "Disable a named MCP server. Kills its child process and marks it disabled so the supervisor won't auto-respawn. Use to stop a crashing or unwanted MCP server."@,
    {
        "Disable a named MCP server. Kills its child process and marks it disabled so the supervisor won't auto-respawn. Use to stop a crashing or unwanted MCP server."
    }

    fn parameters(&self) -> (r: Json)
        ensures
            r@ == server_parameters("Name of the MCP server to disable (e.g. 'mcp-rlsp')"@, true),
    {
        server_parameters_json("Name of the MCP server to disable (e.g. 'mcp-rlsp')", true)
    }
}

/// A crashed server after `n` rounds of a look and an attempt that fails.
pub open spec fn after_failures(s: ServerV, n: int) -> ServerV
    decreases n,
{
    if n <= 0 {
        s
    } else {
        after_failures(s, n - 1).look().0.respawn_failed(Seq::empty())
    }
}

/// A server that never comes back is tried as often as is allowed, and then disabled for
/// good: up to the limit each look starts it again, and the look after that ends it.
pub proof fn lemma_dead_server_is_given_up(s: ServerV, n: int)
    requires
        s.status is Crashed,
        s.failures == 0,
        0 <= n <= MAX_RETRIES,
    ensures
        after_failures(s, n).status is Crashed,
        after_failures(s, n).failures == n,
        n < MAX_RETRIES ==> after_failures(s, n).look().1 is Respawn,
        n == MAX_RETRIES ==> after_failures(s, n).look().1 is Stop && after_failures(
            s,
            n,
        ).look().0.status is Disabled && after_failures(s, n).look().0.look().1 is Stop,
    decreases n,
{
    if n > 0 {
        lemma_dead_server_is_given_up(s, n - 1);
    }
}

} // verus!
