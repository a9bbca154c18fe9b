use gladiator::config::Config;
use gladiator::json::Json;
use gladiator::message::Message;

fn json(text: &str) -> Json {
    Json::parse(text).unwrap()
}

#[test]
fn message_new() {
    let msg = Message::new("topic:1", "src", Json::text("payload"));
    assert_eq!(msg.topic, "topic:1");
    assert_eq!(msg.source, "src");
    assert_eq!(msg.payload, Json::Str("payload".to_string()));
    assert!(!msg.reference.is_empty());
    assert_eq!(msg.meta, Json::Null);
}

#[test]
fn message_text() {
    let msg = Message::text("topic:1", "src", "hello");
    assert_eq!(msg.topic, "topic:1");
    assert_eq!(msg.source, "src");
    assert_eq!(
        msg.payload,
        Json::Str("hello".to_string())
    );
}

#[test]
fn message_with_type() {
    let msg = Message::text("t", "s", "body").with_type("LlmStream");
    assert_eq!(msg.meta, json(r#"{"type": "LlmStream"}"#));
}

#[test]
fn message_with_stream_id() {
    let msg = Message::text("t", "s", "body")
        .with_type("LlmStream")
        .with_stream_id("abc-123".to_string());
    assert_eq!(msg.meta.str_at("type").unwrap(), "LlmStream");
    assert_eq!(msg.meta.str_at("stream_id").unwrap(), "abc-123");
}

#[test]
fn message_serde_roundtrip() {
    let msg = Message::new("topic:1", "src", json(r#"{"key": 42}"#))
        .with_type("Test")
        .with_stream_id("sid-1".to_string());
    let written = msg.to_json().write();
    let decoded = Message::from_json(&json(&written)).unwrap();
    assert_eq!(decoded.topic, msg.topic);
    assert_eq!(decoded.source, msg.source);
    assert_eq!(decoded.payload, msg.payload);
    assert_eq!(decoded.meta, msg.meta);
}

#[test]
fn config_default() {
    let config = Config::default();
    assert!(!config.llm.model.is_empty());
    assert!(!config.llm.base_url.is_empty());
    assert!(config.llm.max_tokens > 0);
}

#[test]
fn config_tools_toggle_defaults_all_on() {
    let config = Config::default();
    assert!(config.tools.bash);
    assert!(config.tools.read);
    assert!(config.tools.write);
    assert!(config.tools.edit);
    assert!(config.tools.glob);
    assert!(config.tools.grep);
    assert!(config.tools.fixme);
}

#[test]
fn a_message_may_be_written_by_position() {
    let m = Message::from_json(&json(r#"["ref","t","s",{"k":1}]"#)).unwrap();
    assert_eq!(m.reference, "ref");
    assert_eq!(m.topic, "t");
    assert_eq!(m.source, "s");
    assert_eq!(m.payload, json(r#"{"k":1}"#));
    assert!(m.meta.is_null());
    assert!(Message::from_json(&json(r#"["ref","t","s"]"#)).is_none());
    assert!(Message::from_json(&json(r#"["ref","t","s",1,2,3]"#)).is_none());
}
