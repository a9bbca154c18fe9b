use gladiator::json::Json;
use gladiator::outgoing_doctor::doctor_messages;

fn list(text: &str) -> Vec<Json> {
    match Json::parse(text).unwrap() {
        Json::Array(a) => a,
        _ => panic!("not an array"),
    }
}

fn role(m: &Json) -> &str {
    m.str_at("role").unwrap()
}

#[test]
fn canonical_valid_args_no_repair() {
    let mut msgs = list(
        r#"[{"role":"assistant","tool_calls":[{"id":"call_1","type":"function",
            "function":{"name":"bash","arguments":"{\"command\":\"ls\"}"}}]}]"#,
    );
    let repairs = doctor_messages(&mut msgs);
    assert!(repairs.is_empty());
    let calls = msgs[0].get("tool_calls").unwrap().as_array().unwrap();
    let args = calls[0].get("function").unwrap().str_at("arguments").unwrap();
    assert_eq!(args, "{\"command\":\"ls\"}");
}

#[test]
fn arguments_are_written_canonically() {
    let mut msgs = list(
        r#"[{"role":"assistant","tool_calls":[{"id":"call_1","type":"function",
            "function":{"name":"bash","arguments":"{ \"b\" : 2 , \"a\":1 }"}}]}]"#,
    );
    assert!(doctor_messages(&mut msgs).is_empty());
    let calls = msgs[0].get("tool_calls").unwrap().as_array().unwrap();
    let args = calls[0].get("function").unwrap().str_at("arguments").unwrap();
    assert_eq!(args, r#"{"a":1,"b":2}"#);
}

#[test]
fn broken_args_replaced_with_synthetic_pair() {
    let mut msgs = list(
        r#"[{"role":"user","content":"read the file"},
            {"role":"assistant","tool_calls":[{"id":"call_1","type":"function",
              "function":{"name":"read_file",
                "arguments":"{\"file_path\":\"mcp-rlsp/src/analyzer/client.rs\"15,\"offset\":340}"}}]},
            {"role":"tool","tool_call_id":"call_1","name":"read_file",
              "content":"Error parsing arguments"}]"#,
    );
    let repairs = doctor_messages(&mut msgs);
    assert_eq!(repairs.len(), 1, "one repair expected");
    assert_eq!(msgs.len(), 3);
    assert_eq!(role(&msgs[0]), "user");
    assert_eq!(role(&msgs[1]), "assistant");
    assert_eq!(role(&msgs[2]), "user");
}

#[test]
fn multiple_broken_tool_calls_replaced() {
    let mut msgs = list(
        r#"[{"role":"assistant","tool_calls":[
              {"id":"a","type":"function","function":{"name":"bash","arguments":"{\"cmd\":\"ls\""}},
              {"id":"b","type":"function","function":{"name":"read","arguments":"GARBAGE"}}]},
            {"role":"tool","tool_call_id":"a","content":"ok"},
            {"role":"tool","tool_call_id":"b","content":"err"}]"#,
    );
    let repairs = doctor_messages(&mut msgs);
    assert_eq!(repairs.len(), 1, "one repair (whole message replaced)");
    assert_eq!(msgs.len(), 2);
}

#[test]
fn mixed_valid_and_broken_replaces_whole_message() {
    let mut msgs = list(
        r#"[{"role":"assistant","tool_calls":[
              {"id":"ok","type":"function","function":{"name":"bash","arguments":"{\"cmd\":\"ls\"}"}},
              {"id":"bad","type":"function","function":{"name":"read","arguments":"GARBAGE"}}]},
            {"role":"tool","tool_call_id":"ok","content":"file list"},
            {"role":"tool","tool_call_id":"bad","content":"error"}]"#,
    );
    let _ = doctor_messages(&mut msgs);
    assert_eq!(msgs.len(), 2);
}

#[test]
fn non_assistant_and_non_tool_untouched() {
    let text = r#"[{"role":"user","content":"hello"},
        {"role":"assistant","content":"hi there"},
        {"role":"tool","tool_call_id":"x","name":"bash","content":"output"}]"#;
    let mut msgs = list(text);
    let repairs = doctor_messages(&mut msgs);
    assert!(repairs.is_empty());
    assert_eq!(msgs, list(text));
}

#[test]
fn round_trip_serialization() {
    let mut msgs = list(
        r#"[{"role":"user","content":"go"},
            {"role":"assistant","tool_calls":[{"id":"call_1","type":"function",
              "function":{"name":"read_file","arguments":"{\"file_path\":\"x.rs\"15}"}}]}]"#,
    );
    let _ = doctor_messages(&mut msgs);
    let s = Json::Array(msgs).write();
    let reparsed = list(&s);
    assert!(!reparsed.is_empty());
}

#[test]
fn a_broken_call_without_an_id_is_replaced() {
    let mut msgs = list(
        r#"[{"role":"assistant","tool_calls":[{"type":"function",
            "function":{"name":"bash","arguments":"GARBAGE"}}]}]"#,
    );
    let repairs = doctor_messages(&mut msgs);
    assert_eq!(repairs.len(), 1);
    assert_eq!(msgs.len(), 2);
    assert_eq!(role(&msgs[0]), "assistant");
    assert!(msgs[0].get("tool_calls").is_none());
    assert_eq!(role(&msgs[1]), "user");
}

#[test]
fn doctored_arguments_read_again() {
    let mut msgs = list(
        r#"[{"role":"assistant","tool_calls":[{"id":"c","type":"function",
            "function":{"name":"bash","arguments":"{\"b\": 1.50, \"a\": [ ]}"}}]}]"#,
    );
    assert!(doctor_messages(&mut msgs).is_empty());
    let calls = msgs[0].get("tool_calls").unwrap().as_array().unwrap();
    let args = calls[0].get("function").unwrap().str_at("arguments").unwrap();
    assert_eq!(args, "{\"a\":[],\"b\":1.5}");
    assert!(Json::parse(args).is_some());
}
