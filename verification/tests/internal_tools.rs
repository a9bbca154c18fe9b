use gladiator::calendar::format_utc_datetime;
use gladiator::internal_tools::{
    backup_filename, build_restart_instruction, internal_tool_defs, is_internal_tool, render_todos,
    InternalToolOutcome, TodoEntry, TodoStatus,
};
use gladiator::json::Json;
use gladiator::todo;

fn json(text: &str) -> Json {
    Json::parse(text).unwrap()
}

fn tool_name(def: &Json) -> &str {
    def.get("function").unwrap().str_at("name").unwrap()
}

fn two_entries() -> Vec<TodoEntry> {
    vec![
        TodoEntry { content: "a".into(), status: TodoStatus::Completed, priority: "low".into() },
        TodoEntry { content: "b".into(), status: TodoStatus::InProgress, priority: "high".into() },
    ]
}

#[test]
fn internal_tools_status_from_str_loose_accepts_variants() {
    assert_eq!(TodoStatus::from_str_loose("completed"), TodoStatus::Completed);
    assert_eq!(TodoStatus::from_str_loose("done"), TodoStatus::Completed);
    assert_eq!(TodoStatus::from_str_loose("In-Progress"), TodoStatus::InProgress);
    assert_eq!(TodoStatus::from_str_loose("pending"), TodoStatus::Pending);
    assert_eq!(TodoStatus::from_str_loose("garbage"), TodoStatus::Pending);
}

#[test]
fn todo_status_from_str_loose_accepts_variants() {
    assert_eq!(todo::TodoStatus::from_str_loose("completed"), todo::TodoStatus::Completed);
    assert_eq!(todo::TodoStatus::from_str_loose("done"), todo::TodoStatus::Completed);
    assert_eq!(todo::TodoStatus::from_str_loose("In-Progress"), todo::TodoStatus::InProgress);
    assert_eq!(todo::TodoStatus::from_str_loose("pending"), todo::TodoStatus::Pending);
    assert_eq!(todo::TodoStatus::from_str_loose("garbage"), todo::TodoStatus::Pending);
}

#[test]
fn internal_tools_entry_from_json_requires_content() {
    assert!(TodoEntry::from_json(&json(r#"{"status":"pending"}"#)).is_err());
    assert!(TodoEntry::from_json(&json(r#"{"content":"  "}"#)).is_err());
}

#[test]
fn todo_entry_from_json_requires_content() {
    assert!(todo::TodoEntry::from_json(&json(r#"{"status":"pending"}"#)).is_err());
    assert!(todo::TodoEntry::from_json(&json(r#"{"content":"  "}"#)).is_err());
}

#[test]
fn entry_errors_say_what_is_wrong() {
    assert_eq!(
        TodoEntry::from_json(&json("{}")).unwrap_err(),
        "todo item missing 'content'"
    );
    assert_eq!(
        TodoEntry::from_json(&json(r#"{"content":" \n"}"#)).unwrap_err(),
        "todo item 'content' must not be empty"
    );
}

#[test]
fn internal_tools_entry_from_json_tolerates_missing_optional() {
    let e = TodoEntry::from_json(&json(r#"{"content":"do thing"}"#)).unwrap();
    assert_eq!(e.status, TodoStatus::Pending);
    assert_eq!(e.priority, "medium");
}

#[test]
fn todo_entry_from_json_tolerates_missing_optional() {
    let e = todo::TodoEntry::from_json(&json(r#"{"content":"do thing"}"#)).unwrap();
    assert_eq!(e.status, todo::TodoStatus::Pending);
    assert_eq!(e.priority, "medium");
}

#[test]
fn internal_tools_entry_from_json_coerces_unknown_status() {
    let e = TodoEntry::from_json(&json(r#"{"content":"x","status":"finished"}"#)).unwrap();
    assert_eq!(e.status, TodoStatus::Completed);
}

#[test]
fn todo_entry_from_json_coerces_unknown_status() {
    let e = todo::TodoEntry::from_json(&json(r#"{"content":"x","status":"finished"}"#)).unwrap();
    assert_eq!(e.status, todo::TodoStatus::Completed);
}

#[test]
fn internal_tools_entry_from_json_full() {
    let e = TodoEntry::from_json(&json(
        r#"{"content":"write tests","status":"in_progress","priority":"high"}"#,
    ))
    .unwrap();
    assert_eq!(e.content, "write tests");
    assert_eq!(e.status, TodoStatus::InProgress);
    assert_eq!(e.priority, "high");
}

#[test]
fn todo_entry_from_json_full() {
    let e = todo::TodoEntry::from_json(&json(
        r#"{"content":"write tests","status":"in_progress","priority":"high"}"#,
    ))
    .unwrap();
    assert_eq!(e.content, "write tests");
    assert_eq!(e.status, todo::TodoStatus::InProgress);
    assert_eq!(e.priority, "high");
}

#[test]
fn internal_tools_render_empty_and_filled() {
    assert_eq!(render_todos(&[]), "(todo list is empty)");
    let rendered = render_todos(&two_entries());
    assert!(rendered.contains("[x] 1 low — a"));
    assert!(rendered.contains("[~] 2 high — b"));
}

#[test]
fn todo_render_empty_and_filled() {
    assert_eq!(todo::render_todos(&[]), "(todo list is empty)");
    let rendered = todo::render_todos(&two_entries());
    assert!(rendered.contains("[x] 1 low — a"));
    assert!(rendered.contains("[~] 2 high — b"));
}

#[test]
fn internal_tools_entry_roundtrips_through_json() {
    let e = TodoEntry {
        content: "ship it".into(),
        status: TodoStatus::InProgress,
        priority: "high".into(),
    };
    let text = e.to_json().write();
    let back = TodoEntry::from_saved(&json(&text)).unwrap();
    assert_eq!(e, back);
}

#[test]
fn todo_entry_roundtrips_through_json() {
    let e = todo::TodoEntry {
        content: "ship it".into(),
        status: todo::TodoStatus::InProgress,
        priority: "high".into(),
    };
    let text = e.to_json().write();
    let back = todo::TodoEntry::from_saved(&json(&text)).unwrap();
    assert_eq!(e, back);
}

#[test]
fn saved_entry_is_taken_as_it_stands() {
    let e = TodoEntry::from_saved(&json(r#"{"content":" x "}"#)).unwrap();
    assert_eq!(e.content, " x ");
    assert_eq!(e.status, TodoStatus::Pending);
    assert_eq!(e.priority, "");
    assert!(TodoEntry::from_saved(&json(r#"{"content":"x","status":"finished"}"#)).is_none());
    assert!(TodoEntry::from_saved(&json(r#"{"content":"x","priority":1}"#)).is_none());
    assert!(TodoEntry::from_saved(&json(r#"{"status":"pending"}"#)).is_none());
}

#[test]
fn internal_tools_internal_tool_defs_have_expected_names() {
    let defs = internal_tool_defs();
    let names: Vec<&str> = defs.iter().map(|d| tool_name(d)).collect();
    assert_eq!(
        names,
        vec![
            "todo_write",
            "todo_read",
            "restart_from_file",
            "set_context_reminder",
            "schedule_wake_up"
        ]
    );
}

#[test]
fn todo_internal_tool_defs_have_expected_names() {
    let defs = todo::internal_tool_defs();
    let names: Vec<&str> = defs.iter().map(|d| tool_name(d)).collect();
    assert_eq!(names, vec!["todo_write", "todo_read"]);
}

#[test]
fn internal_tools_is_internal_tool_matches_known_only() {
    assert!(is_internal_tool("todo_write"));
    assert!(is_internal_tool("todo_read"));
    assert!(is_internal_tool("restart_from_file"));
    assert!(is_internal_tool("set_context_reminder"));
    assert!(is_internal_tool("schedule_wake_up"));
    assert!(!is_internal_tool("bash"));
    assert!(!is_internal_tool("todo_list"));
}

#[test]
fn todo_is_internal_tool_matches_known_only() {
    assert!(todo::is_internal_tool("todo_write"));
    assert!(todo::is_internal_tool("todo_read"));
    assert!(!todo::is_internal_tool("bash"));
    assert!(!todo::is_internal_tool("todo_list"));
}

#[test]
fn format_utc_datetime_epoch_is_1970() {
    assert_eq!(format_utc_datetime(0), "19700101-000000");
}

#[test]
fn internal_tools_format_utc_datetime_known_instant() {
    assert_eq!(format_utc_datetime(1735689600), "20250101-000000");
}

#[test]
fn internal_tools_format_utc_datetime_midday() {
    assert_eq!(format_utc_datetime(1709210096), "20240229-123456");
}

#[test]
fn backup_filename_shape() {
    let name = backup_filename(12345, 1735689600);
    assert_eq!(name, "12345-20250101-000000.json");
    assert!(name.ends_with(".json"));
}

#[test]
fn restart_instruction_wraps_and_directs_continuation() {
    let body = "## Goal\nShip feature X.";
    let instr = build_restart_instruction(body);
    assert!(instr.contains("[Context restarted from file"));
    assert!(instr.contains("## Goal\nShip feature X."));
    assert!(instr.contains("Continue executing"));
    assert!(instr.contains("---BEGIN HANDOFF---"));
    assert!(instr.contains("---END HANDOFF---"));
}

#[test]
fn outcome_constructors_set_flags() {
    let ok = InternalToolOutcome::ok("done");
    assert!(ok.success);
    assert!(!ok.context_reset);
    assert_eq!(ok.result_text, "done");

    let err = InternalToolOutcome::err("boom");
    assert!(!err.success);
    assert!(!err.context_reset);

    let reset = InternalToolOutcome::ok("ignored").with_reset("cleared");
    assert!(reset.success);
    assert!(reset.context_reset);
    assert_eq!(reset.result_text, "cleared");
}

#[test]
fn saved_entries_may_be_written_by_position() {
    let e = TodoEntry::from_saved(&json(r#"["x","completed","high"]"#)).unwrap();
    assert_eq!(e.content, "x");
    assert_eq!(e.status, TodoStatus::Completed);
    assert_eq!(e.priority, "high");
    let e = TodoEntry::from_saved(&json(r#"["x"]"#)).unwrap();
    assert_eq!(e.status, TodoStatus::Pending);
    let e = TodoEntry::from_saved(&json(r#"{"content":"x","status":{"in_progress":null}}"#)).unwrap();
    assert_eq!(e.status, TodoStatus::InProgress);
    assert!(TodoEntry::from_saved(&json(r#"{"content":"x","status":{"in_progress":1}}"#)).is_none());
    assert!(TodoEntry::from_saved(&json(r#"{"content":"x","status":{}}"#)).is_none());
    assert!(TodoEntry::from_saved(&json("[]")).is_none());
    assert!(TodoEntry::from_saved(&json(r#"["x","pending","high",1]"#)).is_none());
}
