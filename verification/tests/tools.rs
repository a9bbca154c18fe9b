use gladiator::file_tools::{EditFileTool, PathKind, ReadFileTool, WriteFileTool};
use gladiator::bash_tool::BashTool;
use gladiator::json::Json;
use gladiator::message::Message;
use gladiator::search_tools::{check_root, GlobSearch, GlobTool, GrepSearch, GrepTool};
use gladiator::tool::{
    Tool, ToolActorRunner, ToolExecuteMessage, ToolRegistry, ToolResultMessage, ToolSyntax,
};

fn json(text: &str) -> Json {
    Json::parse(text).unwrap()
}

fn echo_syntax() -> ToolSyntax {
    EchoTool.syntax()
}

/// What a read answers for a file of that content.
fn read(args: &str, content: &str) -> Result<String, String> {
    let tool = ReadFileTool::new();
    let args = json(args);
    let path = tool.plan(&args, Ok("/work"))?;
    tool.check(&path, PathKind::File, content.len() as u64)?;
    Ok(tool.select(&args, content))
}

/// What the search answers for the files, each a path and its content.
fn grep(args: &str, files: &[(&str, &str)]) -> String {
    let tool = GrepTool::new();
    let mut search = GrepSearch::new(tool.plan(&json(args)).unwrap()).unwrap();
    for (path, content) in files {
        search.take_file(path, content);
    }
    search.report()
}

fn glob(args: &str, files: &[&str]) -> String {
    let tool = GlobTool::new();
    let mut search = GlobSearch::new(tool.plan(&json(args))).unwrap();
    for path in files {
        search.offer(path);
    }
    search.report()
}

#[test]
fn tool_syntax_new() {
    let syntax = ToolSyntax::new(
        "bash".to_string(),
        "Run a bash command".to_string(),
        json(r#"{"type":"object","properties":{}}"#),
    );
    assert_eq!(syntax.name, "bash");
    assert_eq!(syntax.description, "Run a bash command");
}

#[test]
fn tool_syntax_to_openai_json() {
    let syntax = ToolSyntax::new(
        "read".to_string(),
        "Read a file".to_string(),
        json(r#"{"type":"object","properties":{"path":{"type":"string"}}}"#),
    );
    let v = syntax.to_openai_json();
    assert_eq!(v.str_at("type").unwrap(), "function");
    let function = v.get("function").unwrap();
    assert_eq!(function.str_at("name").unwrap(), "read");
    assert_eq!(function.str_at("description").unwrap(), "Read a file");
    assert!(function.get("parameters").unwrap().is_object());
}

#[test]
fn tool_execute_message_serde() {
    let msg = ToolExecuteMessage {
        tool_call_id: "call-1".to_string(),
        tool_name: "bash".to_string(),
        arguments: json(r#"{"command":"ls"}"#),
    };
    let written = msg.to_json().write();
    let decoded = ToolExecuteMessage::from_json(&json(&written)).unwrap();
    assert_eq!(decoded.tool_call_id, "call-1");
    assert_eq!(decoded.tool_name, "bash");
    assert_eq!(decoded.arguments.str_at("command").unwrap(), "ls");
}

#[test]
fn tool_execute_message_needs_all_parts() {
    assert!(ToolExecuteMessage::from_json(&json(r#"{"tool_call_id":"a","tool_name":"b"}"#)).is_none());
    assert!(ToolExecuteMessage::from_json(&json(
        r#"{"tool_call_id":1,"tool_name":"b","arguments":{}}"#
    ))
    .is_none());
}

#[test]
fn tool_result_message_serde() {
    let msg = ToolResultMessage {
        tool_call_id: "call-1".to_string(),
        tool_name: "bash".to_string(),
        success: true,
        result: "hello".to_string(),
        error: None,
    };
    let written = msg.to_json().write();
    let decoded = ToolResultMessage::from_json(&json(&written)).unwrap();
    assert!(decoded.success);
    assert_eq!(decoded.result, "hello");
    assert!(decoded.error.is_none());
}

struct EchoTool;

impl Tool for EchoTool {
    fn name(&self) -> &str {
        "echo"
    }

    fn description(&self) -> &str {
        "Echoes back the input"
    }

    fn parameters(&self) -> Json {
        json(r#"{"type":"object","properties":{"text":{"type":"string"}},"required":["text"]}"#)
    }
}

#[test]
fn tool_trait_basic() {
    let tool = EchoTool;
    assert_eq!(tool.name(), "echo");
    assert_eq!(tool.description(), "Echoes back the input");
    assert!(tool.parameters().is_object());
}

#[test]
fn tool_runner_roundtrip() {
    let runner = ToolActorRunner::new("echo");
    assert_eq!(runner.execute_topic(), "tool:echo:execute");
    let exec_msg = ToolExecuteMessage {
        tool_call_id: "tc-1".to_string(),
        tool_name: "echo".to_string(),
        arguments: json(r#"{"text":"roundtrip"}"#),
    };
    let msg = Message::new("tool:echo:execute", "test-sender", exec_msg.to_json());
    let call = ToolExecuteMessage::from_json(&msg.payload).unwrap();
    let answer = call.arguments.str_at("text").unwrap().to_string();
    let received = runner.result_message(&call.tool_call_id, Ok(answer));
    assert_eq!(received.topic, "tool:results");
    let result = ToolResultMessage::from_json(&received.payload).unwrap();
    assert!(result.success);
    assert_eq!(result.result, "roundtrip");
    assert_eq!(result.tool_call_id, "tc-1");
}

#[test]
fn tool_runner_reports_an_error() {
    let runner = ToolActorRunner::new("echo");
    let received = runner.result_message("tc-2", Err("no luck".to_string()));
    let result = ToolResultMessage::from_json(&received.payload).unwrap();
    assert!(!result.success);
    assert_eq!(result.result, "");
    assert_eq!(result.error, Some("no luck".to_string()));
}

#[test]
fn tool_registry_add_and_get() {
    let mut registry = ToolRegistry::new();
    registry.add(echo_syntax());
    assert_eq!(registry.len(), 1);
    let syntaxes = registry.syntaxes();
    assert_eq!(syntaxes[0].name, "echo");
}

#[test]
fn tool_registry_to_openai_json() {
    let mut registry = ToolRegistry::new();
    registry.add(echo_syntax());
    let v = registry.to_openai_json();
    assert!(v.is_array());
    let first = &v.as_array().unwrap()[0];
    assert_eq!(first.get("function").unwrap().str_at("name").unwrap(), "echo");
}

#[test]
fn tool_registry_rejects_duplicates() {
    let mut registry = ToolRegistry::new();
    assert!(registry.add(echo_syntax()));
    assert!(!registry.add(echo_syntax()));
    assert_eq!(registry.len(), 1);
}

#[test]
fn test_read_file_basic() {
    let result = read(r#"{"file_path":"/tmp/test.txt"}"#, "line1\nline2\nline3").unwrap();
    assert!(result.contains("line1"));
    assert!(result.contains("line2"));
    assert!(result.contains("line3"));
}

#[test]
fn test_read_file_with_offset() {
    let result = read(
        r#"{"file_path":"/tmp/test.txt","offset":3}"#,
        "line1\nline2\nline3\nline4\nline5",
    )
    .unwrap();
    assert!(result.contains("line3"));
    assert!(result.contains("line4"));
    assert!(result.contains("line5"));
    assert!(!result.contains("line1"));
    assert!(!result.contains("line2"));
}

#[test]
fn test_read_file_with_offset_and_limit() {
    let result = read(
        r#"{"file_path":"/tmp/test.txt","offset":2,"limit":2}"#,
        "line1\nline2\nline3\nline4\nline5",
    )
    .unwrap();
    assert!(result.contains("line2"));
    assert!(result.contains("line3"));
    assert!(!result.contains("line1"));
    assert!(!result.contains("line4"));
    assert!(!result.contains("line5"));
}

#[test]
fn test_read_file_not_found() {
    let tool = ReadFileTool::new();
    let args = json(r#"{"file_path":"/nonexistent/path/file.txt"}"#);
    let path = tool.plan(&args, Ok("/work")).unwrap();
    let result = tool.check(&path, PathKind::Missing, 0);
    assert!(result.is_err());
    let err = result.unwrap_err();
    assert!(err.contains("not found") || err.contains("Read failed"));
}

#[test]
fn test_read_file_directory_error() {
    let tool = ReadFileTool::new();
    let path = tool.plan(&json(r#"{"file_path":"/tmp"}"#), Ok("/work")).unwrap();
    assert!(tool.check(&path, PathKind::Directory, 4096).is_err());
}

#[test]
fn read_refuses_a_large_file_and_a_missing_path() {
    let tool = ReadFileTool::new();
    assert!(tool.check("/tmp/big", PathKind::File, 1_048_577).is_err());
    assert!(tool.check("/tmp/big", PathKind::File, 1_048_576).is_ok());
    assert!(tool.plan(&json("{}"), Ok("/work")).is_err());
}

#[test]
fn relative_paths_are_looked_up_under_the_working_directory() {
    let tool = ReadFileTool::with_working_dir("/srv/project".to_string());
    let path = tool.plan(&json(r#"{"file_path":"src/a.rs"}"#), Ok("/work")).unwrap();
    assert_eq!(path, "/srv/project/src/a.rs");
}

#[test]
fn test_read_file_name() {
    let tool = ReadFileTool::new();
    assert_eq!(tool.name(), "read_file");
}

#[test]
fn test_write_file_basic() {
    let tool = WriteFileTool::new();
    let args = json(r#"{"file_path":"/tmp/output.txt","content":"hello world"}"#);
    let plan = tool.plan(&args, Ok("/work")).unwrap();
    assert!(tool.check(&plan.path, PathKind::Missing).is_ok());
    assert!(tool.done(&plan).contains("Successfully wrote"));
    assert_eq!(plan.path, "/tmp/output.txt");
    assert_eq!(plan.content, "hello world");
}

#[test]
fn test_write_file_overwrites() {
    let tool = WriteFileTool::new();
    let args = json(r#"{"file_path":"/tmp/file.txt","content":"new content"}"#);
    let plan = tool.plan(&args, Ok("/work")).unwrap();
    assert!(tool.check(&plan.path, PathKind::File).is_ok());
    assert!(tool.done(&plan).contains("Successfully wrote"));
    assert_eq!(plan.content, "new content");
}

#[test]
fn write_refuses_a_directory_and_missing_content() {
    let tool = WriteFileTool::new();
    assert!(tool.check("/tmp", PathKind::Directory).is_err());
    assert!(tool.plan(&json(r#"{"file_path":"/tmp/a"}"#), Ok("/work")).is_err());
}

#[test]
fn test_write_file_name() {
    let tool = WriteFileTool::new();
    assert_eq!(tool.name(), "write_file");
}

#[test]
fn test_edit_file_basic() {
    let tool = EditFileTool::new();
    let args = json(
        r#"{"file_path":"/tmp/file.txt","old_content":"hello world","new_content":"hello rust"}"#,
    );
    let plan = tool.plan(&args, Ok("/work")).unwrap();
    let result = tool.apply(&plan, "hello world\nfoo bar").unwrap();
    assert!(result.message.contains("Successfully edited"));
    assert!(result.content.contains("hello rust"));
    assert!(!result.content.contains("hello world"));
}

#[test]
fn test_edit_file_not_found() {
    let tool = EditFileTool::new();
    let args = json(
        r#"{"file_path":"/tmp/file.txt","old_content":"nonexistent text","new_content":"replacement"}"#,
    );
    let plan = tool.plan(&args, Ok("/work")).unwrap();
    let result = tool.apply(&plan, "hello world");
    assert!(result.is_err());
    assert!(result.unwrap_err().contains("not found"));
}

#[test]
fn test_edit_file_replace_all() {
    let tool = EditFileTool::new();
    let args = json(r#"{"file_path":"/tmp/file.txt","old_content":"foo","new_content":"bar"}"#);
    let plan = tool.plan(&args, Ok("/work")).unwrap();
    let result = tool.apply(&plan, "foo foo foo").unwrap();
    assert!(result.message.contains("3"));
    assert_eq!(result.content, "bar bar bar");
}

#[test]
fn test_edit_file_name() {
    let tool = EditFileTool::new();
    assert_eq!(tool.name(), "edit_file");
}

#[test]
fn test_bash_echo() {
    let tool = BashTool::new();
    let plan = tool.plan(&json(r#"{"command":"echo hello"}"#)).unwrap();
    assert_eq!(plan.command, "echo hello");
    assert!(tool.report(&plan, Some(0), b"hello\n", b"").contains("hello"));
}

#[test]
fn test_bash_exit_code() {
    let tool = BashTool::new();
    let plan = tool.plan(&json(r#"{"command":"exit 3"}"#)).unwrap();
    assert!(tool.report(&plan, Some(3), b"", b"").contains("Exit code: 3"));
}

#[test]
fn test_bash_stderr() {
    let tool = BashTool::new();
    let plan = tool.plan(&json(r#"{"command":"echo err >&2"}"#)).unwrap();
    assert!(tool.report(&plan, Some(0), b"", b"err\n").contains("err"));
}

#[test]
fn bash_output_that_is_no_text_is_replaced() {
    let tool = BashTool::new();
    let plan = tool.plan(&json(r#"{"command":"x"}"#)).unwrap();
    let report = tool.report(&plan, Some(0), &[0x61, 0xff, 0x62], b"");
    assert!(report.contains("a\u{fffd}b"));
}

#[test]
fn test_bash_dangerous_blocked() {
    let tool = BashTool::new();
    let result = tool.plan(&json(r#"{"command":"rm -rf /"}"#));
    assert!(result.is_err());
    let err = result.unwrap_err();
    assert!(err.contains("blocked") || err.contains("dangerous"));
}

#[test]
fn test_bash_working_dir() {
    let tool = BashTool::new();
    let plan = tool.plan(&json(r#"{"command":"pwd","working_dir":"/srv/a"}"#)).unwrap();
    assert_eq!(plan.work_dir, "/srv/a");
    assert!(tool.check(&plan.work_dir, PathKind::Directory).is_ok());
    assert!(tool.check(&plan.work_dir, PathKind::Missing).is_err());
}

#[test]
fn test_bash_name() {
    let tool = BashTool::new();
    assert_eq!(tool.name(), "bash");
}

#[test]
fn test_glob_find_files() {
    let result = glob(
        r#"{"pattern":"*.txt","path":"/tmp/d"}"#,
        &["a.txt", "b.txt", "c.rs"],
    );
    assert!(result.contains("a.txt"));
    assert!(result.contains("b.txt"));
    assert!(!result.contains("c.rs"));
}

#[test]
fn test_glob_recursive() {
    let result = glob(
        r#"{"pattern":"**/*.rs","path":"/tmp/d"}"#,
        &["subdir/deep.rs", "top.rs"],
    );
    assert!(result.contains("deep.rs"));
    assert!(result.contains("top.rs"));
}

#[test]
fn test_glob_no_matches() {
    let result = glob(r#"{"pattern":"*.nonexistent","path":"/tmp/d"}"#, &["a.txt"]);
    assert!(result.contains("No files") || result.contains("0"));
}

#[test]
fn glob_refuses_a_broken_pattern() {
    let tool = GlobTool::new();
    assert!(GlobSearch::new(tool.plan(&json(r#"{"pattern":"a**b"}"#))).is_err());
    assert!(check_root("/tmp/none", PathKind::Missing).is_err());
    assert!(check_root("/tmp", PathKind::Directory).is_ok());
}

#[test]
fn test_glob_name() {
    let tool = GlobTool::new();
    assert_eq!(tool.name(), "glob");
}

#[test]
fn test_grep_basic() {
    let result = grep(
        r#"{"pattern":"hello","path":"/tmp/d"}"#,
        &[
            ("/tmp/d/file1.txt", "hello world\nfoo bar"),
            ("/tmp/d/file2.txt", "nothing relevant"),
        ],
    );
    assert!(result.contains("file1.txt"));
    assert!(!result.contains("file2.txt"));
}

#[test]
fn test_grep_regex() {
    let result = grep(
        r#"{"pattern":"function\\s+\\w+","path":"/tmp/d"}"#,
        &[("/tmp/d/file.txt", "function foo()\nvar bar = 1")],
    );
    assert!(result.contains("function foo"));
    assert!(!result.contains("var bar"));
}

#[test]
fn test_grep_no_matches() {
    let result = grep(
        r#"{"pattern":"nonexistent_text","path":"/tmp/d"}"#,
        &[("/tmp/d/file.txt", "hello world")],
    );
    assert!(result.contains("No matches") || result.contains("0"));
}

#[test]
fn grep_refuses_a_broken_pattern() {
    let tool = GrepTool::new();
    let plan = tool.plan(&json(r#"{"pattern":"(unclosed"}"#)).unwrap();
    assert!(GrepSearch::new(plan).is_err());
    assert!(tool.plan(&json("{}")).is_err());
}

#[test]
fn test_grep_name() {
    let tool = GrepTool::new();
    assert_eq!(tool.name(), "grep");
}

#[test]
fn calls_and_results_may_be_written_by_position() {
    let call = ToolExecuteMessage::from_json(&json(r#"["c1","bash",{"command":"ls"}]"#)).unwrap();
    assert_eq!(call.tool_call_id, "c1");
    assert_eq!(call.tool_name, "bash");
    assert_eq!(call.arguments.str_at("command"), Some("ls"));
    assert!(ToolExecuteMessage::from_json(&json(r#"["c1","bash"]"#)).is_none());
    assert!(ToolExecuteMessage::from_json(&json(r#"["c1","bash",1,2]"#)).is_none());
    let result = ToolResultMessage::from_json(&json(r#"["c1","bash",true,"ok",null]"#)).unwrap();
    assert!(result.success);
    assert_eq!(result.result, "ok");
    assert!(result.error.is_none());
    assert!(ToolResultMessage::from_json(&json(r#"["c1","bash",true,"ok"]"#)).is_none());
    let by_key = r#"{"tool_call_id":"c1","tool_name":"bash","success":false,"result":""}"#;
    assert!(ToolResultMessage::from_json(&json(by_key)).unwrap().error.is_none());
}

#[test]
fn offered_paths_are_found_one_after_the_other() {
    let plan = GlobTool::new().plan(&json(r#"{"pattern":"*.rs"}"#));
    let mut search = GlobSearch::new(plan).unwrap();
    for i in 0..1000 {
        assert!(search.offer(&format!("{}.rs", i)));
        assert!(search.offer(&format!("{}.txt", i)));
    }
    assert!(search.offer("no.txt"));
    assert!(!search.offer("one-more.rs"));
    assert_eq!(search.results.len(), 1000);
}
