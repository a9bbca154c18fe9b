use gladiator::json::Json;
use gladiator::persistence::{PersistenceActor, PersistenceStep};
use gladiator::string_map::StringMap;

fn json(text: &str) -> Json {
    Json::parse(text).unwrap()
}

fn actor() -> PersistenceActor {
    PersistenceActor::new(
        0,
        "persistence:command".to_string(),
        "persistence:response".to_string(),
        "agent:state_control".to_string(),
        "agent:state".to_string(),
    )
}

#[test]
fn a_saved_state_loads_back() {
    let a = actor();
    let mut pending = StringMap::new();
    let save = json(r#"{"action":"save","filename":"/tmp/s.json","agent_id":"gladiator-agent-0"}"#);
    match a.on_command(&mut pending, &save) {
        PersistenceStep::AskForState { request, .. } => {
            assert_eq!(request.topic, "agent:state_control");
            assert_eq!(request.payload.str_at("type").unwrap(), "dump_state");
        }
        _ => panic!("expected a request for the state"),
    }
    assert_eq!(pending.get("gladiator-agent-0"), Some("/tmp/s.json"));
    let state = json(r#"{"messages":[{"role":"user","content":"é \"x\""}],"iteration_count":7}"#);
    let mut dump = Json::object();
    dump.set("agent_id", Json::text("gladiator-agent-0"));
    dump.set("state", state.clone());
    let file = a.on_state(&mut pending, &dump).unwrap();
    assert_eq!(file.filename, "/tmp/s.json");
    assert_eq!(json(&file.text).get("version").unwrap().as_u64(), Some(1));
    assert!(a.on_state(&mut pending, &dump).is_none());
    let load = a.on_file_read("gladiator-agent-0", Ok(&file.text)).unwrap();
    assert_eq!(load.payload.get("state").unwrap(), &state);
    assert_eq!(load.payload.str_at("type").unwrap(), "load_state");
}

#[test]
fn a_load_reads_a_file() {
    let a = actor();
    let mut pending = StringMap::new();
    let load = json(r#"{"action":"load","filename":"/tmp/s.json","agent_id":"x"}"#);
    assert!(matches!(
        a.on_command(&mut pending, &load),
        PersistenceStep::ReadFile { filename, .. } if filename == "/tmp/s.json"
    ));
    let bare = a.on_file_read("x", Ok(r#"{"messages":[]}"#)).unwrap();
    assert_eq!(bare.payload.get("state").unwrap(), &json(r#"{"messages":[]}"#));
}

#[test]
fn failures_are_answered() {
    let a = actor();
    let unreadable = a.on_file_read("x", Err("gone")).unwrap_err();
    assert_eq!(unreadable.payload.str_at("message").unwrap(), "Failed to read file: gone");
    assert_eq!(unreadable.payload.get("success").unwrap().as_bool(), Some(false));
    let broken = a.on_file_read("x", Ok("{")).unwrap_err();
    assert!(broken.payload.str_at("message").unwrap().starts_with("Failed to parse state file: "));
    let mut pending = StringMap::new();
    pending.insert("x", "f");
    let m = a.on_ask_failed(&mut pending, "x", "no bus");
    assert_eq!(m.payload.str_at("message").unwrap(), "Failed to request state: no bus");
    assert_eq!(pending.get("x"), None);
    let ok = a.on_file_written("f", Ok(()));
    assert_eq!(ok.payload.str_at("message").unwrap(), "Saved state to f");
    let no = a.on_file_written("f", Err("full"));
    assert_eq!(no.payload.str_at("message").unwrap(), "Failed to write file: full");
    let loaded = a.on_load_published("f", Ok(()));
    assert_eq!(loaded.payload.str_at("message").unwrap(), "Loaded state from f");
}

#[test]
fn an_unknown_command_is_no_save() {
    let a = actor();
    let mut pending = StringMap::new();
    let step = a.on_command(&mut pending, &json(r#"{"action":"dance"}"#));
    assert!(matches!(step, PersistenceStep::Nothing | PersistenceStep::Answer(_)));
    let unnamed = a.on_command(&mut pending, &json(r#"{"action":"save"}"#));
    assert!(matches!(unnamed, PersistenceStep::Answer(_)));
}
