use gladiator::json::Json;
use gladiator::string_set::StringSet;
use gladiator::tool_call_rescue::extract_tool_calls;

fn tools(names: &[&str]) -> StringSet {
    let mut set = StringSet::new();
    for n in names {
        set.insert(n);
    }
    set
}

fn function<'a>(call: &'a Json, key: &str) -> &'a str {
    call.get("function").unwrap().str_at(key).unwrap()
}

#[test]
fn rescues_single_call() {
    let text = "<tool_call>\n<function=read_file>\n<parameter=file_path>\n/tmp/x.rs\n</parameter>\n</function>\n</tool_call>";
    let calls = extract_tool_calls(text, &tools(&["read_file"]));
    assert_eq!(calls.len(), 1);
    assert_eq!(function(&calls[0], "name"), "read_file");
    let args = Json::parse(function(&calls[0], "arguments")).unwrap();
    assert_eq!(args.str_at("file_path").unwrap(), "/tmp/x.rs");
}

#[test]
fn rescues_multiple_calls_and_dedupes() {
    let one = "<tool_call>\n<function=read_file>\n<parameter=file_path>\n/a.rs\n</parameter>\n</function>\n</tool_call>";
    let two = "<tool_call>\n<function=read_file>\n<parameter=file_path>\n/b.rs\n</parameter>\n</function>\n</tool_call>";
    let text = format!("thinking...{one}\n{two}\n{one}");
    let calls = extract_tool_calls(&text, &tools(&["read_file"]));
    assert_eq!(calls.len(), 2);
}

#[test]
fn ignores_unknown_tools_and_truncated_blocks() {
    let unknown = "<tool_call>\n<function=rm_rf>\n<parameter=path>\n/\n</parameter>\n</function>\n</tool_call>";
    let truncated = "<tool_call>\n<function=read_file>\n<parameter=file_path>\n/a.rs";
    assert!(extract_tool_calls(unknown, &tools(&["read_file"])).is_empty());
    assert!(extract_tool_calls(truncated, &tools(&["read_file"])).is_empty());
}

#[test]
fn types_numeric_and_bool_params() {
    let text = "<tool_call>\n<function=grep>\n<parameter=pattern>\nfoo bar\n</parameter>\n<parameter=max_results>\n10\n</parameter>\n<parameter=case_sensitive>\ntrue\n</parameter>\n</function>\n</tool_call>";
    let calls = extract_tool_calls(text, &tools(&["grep"]));
    let args = Json::parse(function(&calls[0], "arguments")).unwrap();
    assert_eq!(args.str_at("pattern").unwrap(), "foo bar");
    assert_eq!(args.get("max_results").unwrap().as_u64(), Some(10));
    assert_eq!(args.get("case_sensitive").unwrap().as_bool(), Some(true));
}

#[test]
fn multiline_parameter_value_preserved() {
    let text = "<tool_call>\n<function=write_file>\n<parameter=content>\nline1\nline2\n</parameter>\n</function>\n</tool_call>";
    let calls = extract_tool_calls(text, &tools(&["write_file"]));
    let args = Json::parse(function(&calls[0], "arguments")).unwrap();
    assert_eq!(args.str_at("content").unwrap(), "line1\nline2");
}

#[test]
fn rescued_arguments_are_read_as_an_object() {
    let text = "<tool_call><function=grep><parameter=n>1.5</parameter>\
        <parameter=a>[[{}]]</parameter></function></tool_call>";
    let calls = extract_tool_calls(text, &tools(&["grep"]));
    let args = calls[0].get("function").unwrap().str_at("arguments").unwrap();
    assert!(Json::parse(args).unwrap().is_object());
}
