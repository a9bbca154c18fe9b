use gladiator::config::McpServerConfig;
use gladiator::json::Json;
use gladiator::mcp::{
    normalize_schema, respawn_delay_ms, should_expose, starts_on_launch, McpDisableTool, McpManager, McpRestartTool,
    McpServerRunner, McpServerState, McpStatusTool, McpTool, ServerStatus, StderrLogRing,
    Supervision, MAX_RETRIES, RESPAWN_MAX_DELAY_MS,
};
use gladiator::tool::Tool;

fn json(text: &str) -> Json {
    Json::parse(text).unwrap()
}

fn config(default: bool, expose: &[&str]) -> McpServerConfig {
    McpServerConfig {
        command: vec!["mcp-random".to_string()],
        default,
        expose: expose.iter().map(|s| s.to_string()).collect(),
        env: Vec::new(),
    }
}

fn discovered() -> Vec<McpTool> {
    [
        "random_integer",
        "random_float",
        "random_string",
        "random_uuid",
        "random_choice",
        "random_bytes",
        "random_sample",
    ]
    .iter()
    .map(|n| McpTool::new(n, None, &json(r#"{"type":"object","properties":{}}"#)))
    .collect()
}

#[test]
fn test_mcp_tool_discovery() {
    let runner = McpServerRunner::new("test".to_string(), config(true, &[]));
    assert_eq!(runner.offered(&discovered()).len(), 7, "expected 7 tools");
}

#[test]
fn test_mcp_expose_filter() {
    let runner = McpServerRunner::new("test".to_string(), config(false, &["random_integer"]));
    let offered = runner.offered(&discovered());
    assert_eq!(offered.len(), 1, "expose filter should yield exactly 1 tool");
    assert_eq!(offered[0].name, "random_integer");
    assert!(!should_expose("random_float", &config(false, &["random_integer"])));
}

#[test]
fn test_mcp_tool_error_handling() {
    let tool = &discovered()[4];
    let result = tool.fold_result(&vec!["items must not be empty".to_string()], Some(true));
    assert_eq!(result.unwrap_err(), "MCP error: items must not be empty");
    assert_eq!(tool.fold_result(&vec!["a".to_string(), "b".to_string()], None).unwrap(), "a\nb");
    assert_eq!(tool.call_failed("gone"), "MCP call failed: gone");
}

#[test]
fn test_mcp_tool_parameters_json() {
    let params = discovered()[0].parameters();
    assert!(params.is_object(), "parameters should be a JSON object");
}

#[test]
fn a_server_needs_a_command() {
    let mut c = config(true, &[]);
    c.command.clear();
    assert!(McpServerRunner::new("x".to_string(), c).command().is_err());
    assert_eq!(
        McpServerRunner::new("x".to_string(), config(true, &[])).command().unwrap(),
        &vec!["mcp-random".to_string()]
    );
}

#[test]
fn normalizing_twice_changes_nothing() {
    let raw = json(r#"{"type":["string","null"],"properties":{"a":{"type":["integer","null"]}}}"#);
    let once = normalize_schema(&raw);
    assert_eq!(normalize_schema(&once), once);
}

#[test]
fn the_log_keeps_the_newest_lines() {
    let mut ring = StderrLogRing::new();
    for i in 0..250 {
        ring.push(i.to_string());
    }
    assert_eq!(ring.tail(2), vec!["249".to_string(), "248".to_string()]);
    assert_eq!(ring.tail(1000).len(), 200);
    assert_eq!(ring.tail(1000)[199], "50");
}

#[test]
fn respawn_delays_are_bounded() {
    assert_eq!(respawn_delay_ms(1), 500);
    assert_eq!(respawn_delay_ms(2), 1000);
    assert_eq!(respawn_delay_ms(3), 2000);
    assert_eq!(respawn_delay_ms(60), RESPAWN_MAX_DELAY_MS);
}

#[test]
fn a_server_that_keeps_dying_is_given_up() {
    let mut s = McpServerState::new("x".to_string());
    s.on_started(None);
    let mut respawns = 0;
    for _ in 0..100 {
        match s.supervise() {
            Supervision::Respawn { .. } => {
                respawns += 1;
                s.on_respawn_failed("no");
            }
            _ => break,
        }
    }
    assert_eq!(respawns, MAX_RETRIES);
    assert!(matches!(s.supervise(), Supervision::Stop));
    assert_eq!(s.status.message(), "disabled(exceeded 10 retries)");
}

#[test]
fn statuses_in_words() {
    assert_eq!(ServerStatus::Starting.message(), "starting");
    assert_eq!(ServerStatus::Running.message(), "running");
    assert_eq!(ServerStatus::Restarting { attempt: 3 }.message(), "restarting(attempt=3)");
    assert_eq!(ServerStatus::Disabled { reason: "user".to_string() }.message(), "disabled(user)");
    assert_eq!(ServerStatus::Crashed.message(), "crashed");
}

#[test]
fn tools_that_manage_servers() {
    assert!(McpStatusTool::new().parameters().is_object());
    assert_ne!(McpRestartTool::new().name(), McpDisableTool::new().name());
    let mut s = McpServerState::new("files".to_string());
    s.on_started(Some(1));
    let manager = McpManager { servers: vec![s] };
    assert_eq!(manager.find("files"), Some(0));
    assert_eq!(manager.find("none"), None);
    assert!(manager.named(&json("{}")).is_err());
    assert!(manager.status(None).contains("files"));
    let report = McpStatusTool::new().execute(&manager, &json(r#"{"server":"files"}"#));
    assert!(report.contains("running"));
}

#[test]
fn an_empty_list_exposes_every_tool() {
    assert!(should_expose("any_tool", &config(false, &[])));
    assert!(should_expose("any_tool", &config(true, &[])));
    assert!(should_expose("one", &config(true, &["one"])));
    assert!(!should_expose("two", &config(true, &["one"])));
}

#[test]
fn only_default_servers_start_on_launch() {
    assert!(starts_on_launch(&config(true, &[])));
    assert!(!starts_on_launch(&config(false, &[])));
    let mut c = config(true, &[]);
    c.command.clear();
    assert!(!starts_on_launch(&c));
    let mut s = McpServerState::new("x".to_string());
    s.hold_back();
    assert_eq!(s.status.message(), "disabled(not started on launch)");
    assert!(matches!(s.supervise(), Supervision::Stop));
}

#[test]
fn the_status_tells_the_number_of_tools() {
    let mut s = McpServerState::new("files".to_string());
    s.on_started(Some(7));
    let mut manager = McpManager { servers: vec![s] };
    assert_eq!(manager.status(None), "- files [running], retries=0, tools=7\n");
    manager.servers[0].on_respawned(5);
    assert!(manager.status(None).contains("tools=5"));
    assert!(manager.servers[0].finish_restart(Ok(4)).is_ok());
    assert!(manager.status(None).contains("tools=4"));
    assert_eq!(
        manager.servers[0].finish_restart(Err("no")).unwrap_err(),
        "Failed to restart 'files': no"
    );
    assert!(manager.status(None).contains("[crashed], retries=0, tools=4"));
}
