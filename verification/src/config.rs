//! Configuration and its defaults.

use crate::text::owned;
use vstd::prelude::*;

verus! {

/// The topics of the bus.
#[derive(Debug)]
pub struct TopicsConfig {
    pub log: String,
    pub input: String,
    pub agent_in: String,
    pub agent_out: String,
    pub agent_stream: String,
    pub llm_in: String,
    pub llm_out: String,
    pub llm_stream: String,
    pub llm_stats: String,
    pub llm_tool_calls: String,
    pub tool_results: String,
    pub user_control: String,
    pub ui_user: String,
    pub ui_input: String,
}

pub fn default_log_topic() -> (r: String)
    ensures
        r@ == "gladiator:log"@,
{
    owned("gladiator:log")
}

pub fn default_input_topic() -> (r: String)
    ensures
        r@ == "gladiator:input"@,
{
    owned("gladiator:input")
}

pub fn default_agent_in_topic() -> (r: String)
    ensures
        r@ == "agent:in"@,
{
    owned("agent:in")
}

pub fn default_agent_out_topic() -> (r: String)
    ensures
        r@ == "agent:out"@,
{
    owned("agent:out")
}

pub fn default_agent_stream_topic() -> (r: String)
    ensures
        r@ == "agent:stream"@,
{
    owned("agent:stream")
}

pub fn default_llm_in_topic() -> (r: String)
    ensures
        r@ == "llm:in"@,
{
    owned("llm:in")
}

pub fn default_llm_out_topic() -> (r: String)
    ensures
        r@ == "llm:out"@,
{
    owned("llm:out")
}

pub fn default_llm_stream_topic() -> (r: String)
    ensures
        r@ == "llm:stream"@,
{
    owned("llm:stream")
}

pub fn default_llm_stats_topic() -> (r: String)
    ensures
        r@ == "llm:stats"@,
{
    owned("llm:stats")
}

pub fn default_llm_tool_calls_topic() -> (r: String)
    ensures
        r@ == "llm:tool_calls"@,
{
    owned("llm:tool_calls")
}

pub fn default_tool_results_topic() -> (r: String)
    ensures
        r@ == "tool:results"@,
{
    owned("tool:results")
}

pub fn default_user_control_topic() -> (r: String)
    ensures
        r@ == "user:control"@,
{
    owned("user:control")
}

pub fn default_ui_user_topic() -> (r: String)
    ensures
        r@ == "ui:user"@,
{
    owned("ui:user")
}

pub fn default_ui_input_topic() -> (r: String)
    ensures
        r@ == "ui:input"@,
{
    owned("ui:input")
}

impl Default for TopicsConfig {
    fn default() -> (r: TopicsConfig)
        ensures
            r.log@ == "gladiator:log"@,
            r.input@ == "gladiator:input"@,
            r.agent_in@ == "agent:in"@,
            r.agent_out@ == "agent:out"@,
            r.agent_stream@ == "agent:stream"@,
            r.llm_in@ == "llm:in"@,
            r.llm_out@ == "llm:out"@,
            r.llm_stream@ == "llm:stream"@,
            r.llm_stats@ == "llm:stats"@,
            r.llm_tool_calls@ == "llm:tool_calls"@,
            r.tool_results@ == "tool:results"@,
            r.user_control@ == "user:control"@,
            r.ui_user@ == "ui:user"@,
            r.ui_input@ == "ui:input"@,
    {
        TopicsConfig {
            log: default_log_topic(),
            input: default_input_topic(),
            agent_in: default_agent_in_topic(),
            agent_out: default_agent_out_topic(),
            agent_stream: default_agent_stream_topic(),
            llm_in: default_llm_in_topic(),
            llm_out: default_llm_out_topic(),
            llm_stream: default_llm_stream_topic(),
            llm_stats: default_llm_stats_topic(),
            llm_tool_calls: default_llm_tool_calls_topic(),
            tool_results: default_tool_results_topic(),
            user_control: default_user_control_topic(),
            ui_user: default_ui_user_topic(),
            ui_input: default_ui_input_topic(),
        }
    }
}

/// Where the HTTP debug server listens.
#[derive(Debug)]
pub struct ServerConfig {
    pub host: String,
    pub port: u16,
}

pub fn default_host() -> (r: String)
    ensures
        r@ == "127.0.0.1"@,
{
    owned("127.0.0.1")
}

pub fn default_port() -> (r: u16)
    ensures
        r == 3000,
{
    3000
}

impl Default for ServerConfig {
    fn default() -> (r: ServerConfig)
        ensures
            r.host@ == "127.0.0.1"@,
            r.port == 3000,
    {
        ServerConfig { host: default_host(), port: default_port() }
    }
}

/// The looks of the user interface.
#[derive(Debug)]
pub struct UiConfig {
    pub show_bottom_panel: bool,
    pub theme: String,
}

pub fn default_theme() -> (r: String)
    ensures
        r@ == "dark"@,
{
    owned("dark")
}

impl Default for UiConfig {
    fn default() -> (r: UiConfig)
        ensures
            r.show_bottom_panel,
            r.theme@ == "dark"@,
    {
        UiConfig { show_bottom_panel: true, theme: default_theme() }
    }
}

/// How to reach the model. The temperature is held as the decimal text under which
/// it stands in a request.
#[derive(Debug, PartialEq, Eq)]
pub struct LlmConfig {
    pub model: String,
    pub base_url: String,
    pub api_key: String,
    pub temperature: String,
    pub max_tokens: i32,
    pub request_timeout_secs: u64,
    pub stream_timeout_secs: u64,
    pub max_retries: u32,
    pub retry_base_delay_ms: u64,
    /// The context window in tokens, where it is known.
    pub context_window: Option<usize>,
    /// The window of the loop detector in characters; 0 for its own.
    pub loop_cycle_window: usize,
    /// The length at which a stream is ended, in characters; 0 for the detector's own.
    pub loop_max_total_chars: usize,
}

/// The model of an [`LlmConfig`].
pub struct LlmConfigV {
    pub model: Seq<char>,
    pub base_url: Seq<char>,
    pub api_key: Seq<char>,
    pub temperature: Seq<char>,
    pub max_tokens: i32,
    pub request_timeout_secs: u64,
    pub stream_timeout_secs: u64,
    pub max_retries: u32,
    pub retry_base_delay_ms: u64,
    pub context_window: Option<usize>,
    pub loop_cycle_window: usize,
    pub loop_max_total_chars: usize,
}

impl View for LlmConfig {
    type V = LlmConfigV;

    open spec fn view(&self) -> LlmConfigV {
        LlmConfigV {
            model: self.model@,
            base_url: self.base_url@,
            api_key: self.api_key@,
            temperature: self.temperature@,
            max_tokens: self.max_tokens,
            request_timeout_secs: self.request_timeout_secs,
            stream_timeout_secs: self.stream_timeout_secs,
            max_retries: self.max_retries,
            retry_base_delay_ms: self.retry_base_delay_ms,
            context_window: self.context_window,
            loop_cycle_window: self.loop_cycle_window,
            loop_max_total_chars: self.loop_max_total_chars,
        }
    }
}

impl Clone for LlmConfig {
    fn clone(&self) -> (r: LlmConfig)
        ensures
            r@ == self@,
    {
        LlmConfig {
            model: self.model.clone(),
            base_url: self.base_url.clone(),
            api_key: self.api_key.clone(),
            temperature: self.temperature.clone(),
            max_tokens: self.max_tokens,
            request_timeout_secs: self.request_timeout_secs,
            stream_timeout_secs: self.stream_timeout_secs,
            max_retries: self.max_retries,
            retry_base_delay_ms: self.retry_base_delay_ms,
            context_window: self.context_window,
            loop_cycle_window: self.loop_cycle_window,
            loop_max_total_chars: self.loop_max_total_chars,
        }
    }
}

pub fn default_llm_model() -> (r: String)
    ensures
        r@ == "gpt-4o-mini"@,
{
    owned("gpt-4o-mini")
}

pub fn default_llm_base_url() -> (r: String)
    ensures
        r@ == "http://ts-agent-gateway:4000/v1"@,
{
    owned("http://ts-agent-gateway:4000/v1")
}

pub fn default_llm_api_key() -> (r: String)
    ensures
        r@.len() == 0,
{
    String::new()
}

/// 0.7, as single precision holds it.
pub fn default_llm_temperature() -> (r: String)
    ensures
        r@ == "0.699999988079071"@,
{
    owned("0.699999988079071")
}

pub fn default_llm_max_tokens() -> (r: i32)
    ensures
        r == 65536,
{
    65536
}

pub fn default_request_timeout_secs() -> (r: u64)
    ensures
        r == 120,
{
    120
}

pub fn default_stream_timeout_secs() -> (r: u64)
    ensures
        r == 300,
{
    300
}

pub fn default_max_retries() -> (r: u32)
    ensures
        r == 3,
{
    3
}

pub fn default_retry_base_delay_ms() -> (r: u64)
    ensures
        r == 500,
{
    500
}

pub fn default_max_iterations() -> (r: u32)
    ensures
        r == 50,
{
    50
}

impl Default for LlmConfig {
    fn default() -> (r: LlmConfig)
        ensures
            r.model@ == "gpt-4o-mini"@,
            r.base_url@ == "http://ts-agent-gateway:4000/v1"@,
            r.api_key@.len() == 0,
            r.temperature@ == "0.699999988079071"@,
            r.max_tokens == 65536,
            r.request_timeout_secs == 120,
            r.stream_timeout_secs == 300,
            r.max_retries == 3,
            r.retry_base_delay_ms == 500,
            r.context_window is None,
            r.loop_cycle_window == 0,
            r.loop_max_total_chars == 0,
    {
        LlmConfig {
            model: default_llm_model(),
            base_url: default_llm_base_url(),
            api_key: default_llm_api_key(),
            temperature: default_llm_temperature(),
            max_tokens: default_llm_max_tokens(),
            request_timeout_secs: default_request_timeout_secs(),
            stream_timeout_secs: default_stream_timeout_secs(),
            max_retries: default_max_retries(),
            retry_base_delay_ms: default_retry_base_delay_ms(),
            context_window: None,
            loop_cycle_window: 0,
            loop_max_total_chars: 0,
        }
    }
}

/// How the agent works.
#[derive(Debug)]
pub struct AgentConfig {
    pub max_iterations: u32,
    pub system_message: String,
    pub working_dir: String,
}

pub fn default_system_message() -> (r: String)
    ensures
        r@ == "You are gladiator, an autonomous coding agent. You write code, run tests, and iterate until tests pass. Use the tools available to you to explore the codebase, make edits, run builds, and verify your work."@,
{
    owned("You are gladiator, an autonomous coding agent. You write code, run tests, and iterate until tests pass. Use the tools available to you to explore the codebase, make edits, run builds, and verify your work.")
}

pub fn default_working_dir() -> (r: String)
    ensures
        r@ == "."@,
{
    owned(".")
}

impl Default for AgentConfig {
    fn default() -> (r: AgentConfig)
        ensures
            r.max_iterations == 50,
            r.system_message@ == "You are gladiator, an autonomous coding agent. You write code, run tests, and iterate until tests pass. Use the tools available to you to explore the codebase, make edits, run builds, and verify your work."@,
            r.working_dir@ == "."@,
    {
        AgentConfig {
            max_iterations: default_max_iterations(),
            system_message: default_system_message(),
            working_dir: default_working_dir(),
        }
    }
}

/// Which tools are switched on.
#[derive(Debug, Clone, Copy, PartialEq, Eq, Structural)]
pub struct ToolsConfig {
    pub bash: bool,
    pub read: bool,
    pub write: bool,
    pub edit: bool,
    pub glob: bool,
    pub grep: bool,
    pub web_fetch: bool,
    pub fixme: bool,
}

impl Default for ToolsConfig {
    fn default() -> (r: ToolsConfig)
        ensures
            r.bash && r.read && r.write && r.edit && r.glob && r.grep && r.web_fetch && r.fixme,
    {
        ToolsConfig {
            bash: true,
            read: true,
            write: true,
            edit: true,
            glob: true,
            grep: true,
            web_fetch: true,
            fixme: true,
        }
    }
}

/// An external tool server: how to start it and which of its tools to expose.
#[derive(Debug)]
pub struct McpServerConfig {
    pub command: Vec<String>,
    /// Whether it is started on launch.
    pub default: bool,
    /// The tools to expose; all of them where none is named.
    pub expose: Vec<String>,
    pub env: Vec<(String, String)>,
}

/// The whole configuration.
#[derive(Debug)]
pub struct Config {
    pub topics: TopicsConfig,
    pub server: ServerConfig,
    pub ui: UiConfig,
    pub llm: LlmConfig,
    pub agent: AgentConfig,
    pub tools: ToolsConfig,
    pub mcp_servers: Vec<(String, McpServerConfig)>,
}

impl Default for Config {
    fn default() -> (r: Config)
        ensures
            call_ensures(TopicsConfig::default, (), r.topics),
            call_ensures(ServerConfig::default, (), r.server),
            call_ensures(UiConfig::default, (), r.ui),
            call_ensures(LlmConfig::default, (), r.llm),
            call_ensures(AgentConfig::default, (), r.agent),
            call_ensures(ToolsConfig::default, (), r.tools),
            r.mcp_servers@.len() == 0,
    {
        Config {
            topics: TopicsConfig::default(),
            server: ServerConfig::default(),
            ui: UiConfig::default(),
            llm: LlmConfig::default(),
            agent: AgentConfig::default(),
            tools: ToolsConfig::default(),
            mcp_servers: Vec::new(),
        }
    }
}

} // verus!
