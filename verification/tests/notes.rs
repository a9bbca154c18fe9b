use gladiator::json::Json;
use gladiator::notes::{
    format_conclusions, format_fixmes, is_blank, ConclusionEntry, ConclusionStore, CreateFixmeTool,
    FixmeEntry, FixmeStore, GetAllFixmesTool, GetConclusionsTool, GetOpenFixmesTool,
    MarkFixmeDoneTool, RecordConclusionTool,
};
use gladiator::tool::Tool;

fn json(text: &str) -> Json {
    Json::parse(text).unwrap()
}

fn store() -> FixmeStore {
    FixmeStore::new("/tmp/notes", None)
}

#[test]
fn fixme_store_load_empty_when_no_file() {
    let fixmes = store().get_all();
    assert!(fixmes.is_empty());
}

#[test]
fn fixme_store_add_and_load() {
    let mut store = store();
    let entry = store.add("fix the bug");
    assert_eq!(entry.phrase, "fix the bug");
    assert!(!entry.done);
    assert!(!entry.id.is_empty());

    let fixmes = store.get_all();
    assert_eq!(fixmes.len(), 1);
    assert_eq!(fixmes[0].phrase, "fix the bug");
    assert!(!fixmes[0].done);
}

#[test]
fn fixme_store_add_multiple() {
    let mut store = store();
    store.add("first issue");
    store.add("second issue");
    store.add("third issue");

    let fixmes = store.get_all();
    assert_eq!(fixmes.len(), 3);
    assert_eq!(fixmes[0].phrase, "first issue");
    assert_eq!(fixmes[1].phrase, "second issue");
    assert_eq!(fixmes[2].phrase, "third issue");
}

#[test]
fn fixme_store_mark_done() {
    let mut store = store();
    let entry = store.add("fix me");
    store.mark_done(&entry.id, true).unwrap();

    let fixmes = store.get_all();
    assert_eq!(fixmes.len(), 1);
    assert!(fixmes[0].done);
}

#[test]
fn fixme_store_mark_undone() {
    let mut store = store();
    let entry = store.add("fix me");
    store.mark_done(&entry.id, true).unwrap();
    store.mark_done(&entry.id, false).unwrap();

    let fixmes = store.get_all();
    assert!(!fixmes[0].done);
}

#[test]
fn fixme_store_mark_done_not_found() {
    let err = store().mark_done("nonexistent", true).unwrap_err();
    assert!(err.contains("not found"));
}

#[test]
fn fixme_store_get_all() {
    let mut store = store();
    let e1 = store.add("first");
    store.add("second");
    store.mark_done(&e1.id, true).unwrap();

    let all = store.get_all();
    assert_eq!(all.len(), 2);
    assert!(all[0].done);
    assert!(!all[1].done);
}

#[test]
fn fixme_store_get_open() {
    let mut store = store();
    let e1 = store.add("first");
    store.add("second");
    store.add("third");
    store.mark_done(&e1.id, true).unwrap();

    let open = store.get_open();
    assert_eq!(open.len(), 2);
    assert!(!open[0].done);
    assert!(!open[1].done);
}

#[test]
fn fixme_store_load_existing_file() {
    let mut store = store();
    store.load(vec![
        FixmeEntry { id: "id1".to_string(), phrase: "first".to_string(), done: false },
        FixmeEntry { id: "id2".to_string(), phrase: "second".to_string(), done: true },
    ]);
    let loaded = store.get_all();
    assert_eq!(loaded.len(), 2);
    assert_eq!(loaded[0].id, "id1");
    assert_eq!(loaded[1].phrase, "second");
    assert!(loaded[1].done);
}

#[test]
fn note_files_lie_in_the_working_directory() {
    assert_eq!(FixmeStore::new("/a/b", None).path(), "/a/b/fixme.json");
    assert_eq!(FixmeStore::new("/a/b/", None).path(), "/a/b/fixme.json");
    assert_eq!(FixmeStore::new(".", Some("/home/x")).path(), "/home/x/fixme.json");
    assert_eq!(ConclusionStore::new(".", None).path(), "./conclusions.json");
}

#[test]
fn test_get_all_fixmes_tool() {
    let mut tool = GetAllFixmesTool::with_working_dir("/tmp/notes", None);
    tool.store.add("fix the bug");
    tool.store.add("add tests");
    let all = tool.store.get_all();
    let result = format_fixmes(&all, "[\"fix the bug\", \"add tests\"]");
    assert!(result.contains("fix the bug"));
    assert!(result.contains("add tests"));
}

#[test]
fn test_get_all_fixmes_empty() {
    let tool = GetAllFixmesTool::with_working_dir("/tmp/notes", None);
    let result = format_fixmes(&tool.store.get_all(), "[]");
    assert!(result.contains("No fixmes found"));
}

#[test]
fn test_mark_fixme_done_tool() {
    let mut tool = MarkFixmeDoneTool::with_working_dir("/tmp/notes", None);
    let entry = tool.store.add("fix me");
    let args = json(&format!("{{\"id\":\"{}\",\"done\":true}}", entry.id));
    let (id, done) = tool.plan(&args).unwrap();
    tool.store.mark_done(&id, done).unwrap();
    assert!(tool.done(&id, done).contains("done"));
    assert!(tool.store.get_all()[0].done);
}

#[test]
fn test_mark_fixme_done_tool_not_found() {
    let mut tool = MarkFixmeDoneTool::with_working_dir("/tmp/notes", None);
    let (id, done) = tool.plan(&json(r#"{"id":"nonexistent","done":true}"#)).unwrap();
    let err = tool.store.mark_done(&id, done).unwrap_err();
    assert!(err.contains("not found"));
}

#[test]
fn test_mark_fixme_undone_tool() {
    let mut tool = MarkFixmeDoneTool::with_working_dir("/tmp/notes", None);
    let entry = tool.store.add("fix me");
    tool.store.mark_done(&entry.id, true).unwrap();
    let args = json(&format!("{{\"id\":\"{}\",\"done\":false}}", entry.id));
    let (id, done) = tool.plan(&args).unwrap();
    tool.store.mark_done(&id, done).unwrap();
    assert!(tool.done(&id, done).contains("not done"));
    assert!(!tool.store.get_all()[0].done);
}

#[test]
fn mark_fixme_needs_both_parameters() {
    let tool = MarkFixmeDoneTool::with_working_dir("/tmp/notes", None);
    assert_eq!(tool.plan(&json("{}")).unwrap_err(), "Missing 'id' parameter");
    assert_eq!(tool.plan(&json(r#"{"id":"a"}"#)).unwrap_err(), "Missing 'done' parameter");
}

#[test]
fn test_fixme_tool_names() {
    let all_tool = GetAllFixmesTool::with_working_dir("/tmp/notes", None);
    let open_tool = GetOpenFixmesTool::with_working_dir("/tmp/notes", None);
    let mark_tool = MarkFixmeDoneTool::with_working_dir("/tmp/notes", None);
    assert_eq!(all_tool.name(), "get_all_fixmes");
    assert_eq!(open_tool.name(), "get_open_fixmes");
    assert_eq!(mark_tool.name(), "mark_fixme_done");
}

#[test]
fn test_create_fixme_tool_missing_phrase() {
    let tool = CreateFixmeTool::with_working_dir("/tmp/notes", None);
    let err = tool.plan(&json("{}")).unwrap_err();
    assert!(err.contains("Missing 'phrase'"));
}

#[test]
fn test_create_fixme_tool_empty_phrase() {
    let tool = CreateFixmeTool::with_working_dir("/tmp/notes", None);
    let err = tool.plan(&json(r#"{"phrase":"   "}"#)).unwrap_err();
    assert!(err.contains("empty"));
}

#[test]
fn test_create_fixme_tool_name() {
    let create_tool = CreateFixmeTool::with_working_dir("/tmp/notes", None);
    assert_eq!(create_tool.name(), "create_fixme");
}

#[test]
fn conclusion_store_load_empty_when_no_file() {
    let store = ConclusionStore::new("/tmp/notes", None);
    assert!(store.get_all().is_empty());
}

#[test]
fn conclusion_store_add_and_load() {
    let mut store = ConclusionStore::new("/tmp/notes", None);
    let entry = store.add("root cause is dropped content");
    assert_eq!(entry.text, "root cause is dropped content");
    assert!(!entry.id.is_empty());

    let conclusions = store.get_all();
    assert_eq!(conclusions.len(), 1);
    assert_eq!(conclusions[0].text, "root cause is dropped content");
}

#[test]
fn conclusion_store_add_multiple_preserves_order() {
    let mut store = ConclusionStore::new("/tmp/notes", None);
    store.add("first decision");
    store.add("second decision");
    store.add("third decision");

    let conclusions = store.get_all();
    assert_eq!(conclusions.len(), 3);
    assert_eq!(conclusions[0].text, "first decision");
    assert_eq!(conclusions[1].text, "second decision");
    assert_eq!(conclusions[2].text, "third decision");
}

#[test]
fn conclusion_store_load_existing_file() {
    let mut store = ConclusionStore::new("/tmp/notes", None);
    store.load(vec![
        ConclusionEntry { id: "id1".to_string(), text: "first".to_string() },
        ConclusionEntry { id: "id2".to_string(), text: "second".to_string() },
    ]);
    let loaded = store.get_all();
    assert_eq!(loaded.len(), 2);
    assert_eq!(loaded[0].id, "id1");
    assert_eq!(loaded[1].text, "second");
}

#[test]
fn test_record_conclusion_tool_persists() {
    let mut tool = RecordConclusionTool::with_working_dir("/tmp/notes", None);
    let text = tool.plan(&json(r#"{"text":"fix belongs in add_tool_calls"}"#)).unwrap();
    tool.store.add(&text);
    assert!(tool.done().contains("recorded"));

    let all = tool.store.get_all();
    assert_eq!(all.len(), 1);
    assert_eq!(all[0].text, "fix belongs in add_tool_calls");
}

#[test]
fn test_record_conclusion_missing_text() {
    let tool = RecordConclusionTool::with_working_dir("/tmp/notes", None);
    let err = tool.plan(&json("{}")).unwrap_err();
    assert!(err.contains("text"));
}

#[test]
fn test_record_conclusion_empty_text_rejected() {
    let tool = RecordConclusionTool::with_working_dir("/tmp/notes", None);
    let err = tool.plan(&json(r#"{"text":"   "}"#)).unwrap_err();
    assert!(err.contains("empty"));
}

#[test]
fn test_get_conclusions_empty() {
    let tool = GetConclusionsTool::with_working_dir("/tmp/notes", None);
    let result = format_conclusions(&tool.store.get_all(), "[]");
    assert!(result.contains("No conclusions"));
}

#[test]
fn test_conclusion_tool_names() {
    let record = RecordConclusionTool::with_working_dir("/tmp/notes", None);
    let get = GetConclusionsTool::with_working_dir("/tmp/notes", None);
    assert_eq!(record.name(), "record_conclusion");
    assert_eq!(get.name(), "get_conclusions");
}

#[test]
fn a_blank_file_counts_as_empty() {
    assert!(is_blank(""));
    assert!(is_blank(" \n\t"));
    assert!(!is_blank(" []"));
}
