use gladiator::args_fixer::{fix_args_string, repair_tool_call, repair_tool_calls};
use gladiator::json::Json;

fn json(text: &str) -> Json {
    Json::parse(text).unwrap()
}

fn arguments(call: &Json) -> &str {
    call.get("function").unwrap().str_at("arguments").unwrap()
}

#[test]
fn leaves_valid_json_unchanged() {
    assert_eq!(fix_args_string(r#"{"command":"ls"}"#), r#"{"command":"ls"}"#);
    assert_eq!(fix_args_string(r#"{"a":1,"b":[2,3]}"#), r#"{"a":1,"b":[2,3]}"#);
    assert_eq!(fix_args_string("{}"), "{}");
}

#[test]
fn closes_truncated_object() {
    assert_eq!(fix_args_string(r#"{"command":"echo hi""#), r#"{"command":"echo hi"}"#);
}

#[test]
fn closes_truncated_string_and_object() {
    // The exact failure from tmp/err.json: EOF while parsing a string.
    let bad = r#"{"command":"echo broken"#;
    let fixed = fix_args_string(bad);
    assert!(Json::parse(&fixed).is_some(), "fixed must parse: {fixed}");
    assert_eq!(
        fixed,
        r#"{"command":"echo broken"}"#
    );
}

#[test]
fn closes_nested_truncation() {
    let bad = r#"{"commands":["ls","pwd","#;
    let fixed = fix_args_string(bad);
    let v = Json::parse(&fixed).expect("must parse");
    assert!(v.get("commands").unwrap().is_array());
}

#[test]
fn escapes_bare_newline_in_string() {
    let bad = "{\"command\":\"echo\nhello\"}";
    let fixed = fix_args_string(bad);
    let v = Json::parse(&fixed).expect("must parse");
    assert_eq!(v.str_at("command").unwrap(), "echo\nhello");
}

#[test]
fn truncates_at_last_complete_pair() {
    // Truncated mid-value: the second value cannot be recovered, but the
    // first key/value pair can be salvaged.
    let bad = r#"{"a":"ok","b":"trun"#;
    let fixed = fix_args_string(bad);
    let v = Json::parse(&fixed).expect("must parse");
    assert_eq!(v.str_at("a").unwrap(), "ok");
}

#[test]
fn unrepairable_input_returned_unchanged() {
    // Garbage with no JSON structure: nothing to salvage, return as-is so
    // the downstream parser surfaces an honest error.
    let bad = "not json at all }}}";
    assert_eq!(fix_args_string(bad), bad);
}

#[test]
fn repair_tool_call_modifies_args_in_place() {
    let mut tc = json(r#"{ "id": "call_1", "type": "function", "function": {"name": "bash", "arguments": "{\"command\":\"ls\""} }"#);
    assert!(repair_tool_call(&mut tc));
    let args = arguments(&tc);
    let v = json(args);
    assert_eq!(v.str_at("command").unwrap(), "ls");
}

#[test]
fn repair_tool_calls_counts_only_modified() {
    let mut batch = vec![
        json(r#"{ "id": "ok", "type": "function", "function": {"name": "bash", "arguments": "{\"command\":\"ls\"}"} }"#),
        json(r#"{ "id": "bad", "type": "function", "function": {"name": "bash", "arguments": "{\"command\":\"echo"} }"#),
    ];
    let repaired = repair_tool_calls(&mut batch);
    assert_eq!(repaired, 1);
    // Untouched entry stays byte-identical.
    assert_eq!(arguments(&batch[0]), "{\"command\":\"ls\"}");
    // Fixed entry parses.
    let args = arguments(&batch[1]);
    let v = json(args);
    assert_eq!(v.str_at("command").unwrap(), "echo");
}

#[test]
fn dangling_backslash_dropped_before_close() {
    // Truncated mid-escape: trailing `\` must be dropped so the string can
    // be closed.
    let bad = r#"{"command":"echo \"#;
    let fixed = fix_args_string(bad);
    let v = Json::parse(&fixed).expect("must parse");
    assert_eq!(v.str_at("command").unwrap(), r#"echo "#);
}
