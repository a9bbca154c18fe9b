use gladiator::json::Json;
use gladiator::model_probe::{
    extract_context_window, looks_like_context_field, probe_endpoints, window_from_reply,
};

fn json(text: &str) -> Json {
    Json::parse(text).unwrap()
}

#[test]
fn openrouter_single_object_shape() {
    let body = json(r#"{ "id": "vendor/model-3.5", "context_length": 200000, "pricing": {"prompt": "0.000003"} }"#);
    assert_eq!(extract_context_window(&body, "vendor/model-3.5"), Some(200000));
}

#[test]
fn litellm_data_array_with_matching_id() {
    let body = json(r#"{ "data": [ {"id": "wrong-model", "context_length": 4096}, {"id": "custom/glm-5.2", "context_length": 131072} ] }"#);
    assert_eq!(extract_context_window(&body, "custom/glm-5.2"), Some(131072));
}

#[test]
fn openai_data_array_no_context_field_returns_none() {
    // Real OpenAI /v1/models returns objects with no context info at all.
    let body = json(r#"{ "data": [ {"id": "gpt-4o-mini", "object": "model", "created": 1234, "owned_by": "openai"} ] }"#);
    assert_eq!(extract_context_window(&body, "gpt-4o-mini"), None);
}

#[test]
fn bare_array_falls_back_to_first() {
    let body = json(r#"[ {"context_length": 8192}, {"context_length": 16384} ]"#);
    assert_eq!(extract_context_window(&body, "no-such-id"), Some(8192));
}

#[test]
fn prefers_shallower_match() {
    // Both top-level and nested have a context-length-like key; top wins.
    let body = json(r#"{ "context_length": 128000, "metadata": {"context_length": 8192} }"#);
    assert_eq!(extract_context_window(&body, "x"), Some(128000));
}

#[test]
fn nested_under_top_provider_openrouter_variant() {
    let body = json(r#"{ "id": "x", "top_provider": {"context_length": 65536} }"#);
    assert_eq!(extract_context_window(&body, "x"), Some(65536));
}

#[test]
fn rejects_absurd_values() {
    // >2M tokens is almost certainly a misread (e.g. a price in micro-cents
    // matched by accident). Walk should skip it.
    let body = json(r#"{ "context_length": 100000000 }"#);
    assert_eq!(extract_context_window(&body, "x"), None);
}

#[test]
fn empty_data_returns_none() {
    let body = json(r#"{"data": []}"#);
    assert_eq!(extract_context_window(&body, "x"), None);
}

#[test]
fn field_name_matcher_variants() {
    assert!(looks_like_context_field("context_length"));
    assert!(looks_like_context_field("context_window"));
    assert!(looks_like_context_field("contextSize"));
    assert!(looks_like_context_field("max-context-length"));
    assert!(!looks_like_context_field("context"));
    assert!(!looks_like_context_field("length"));
    assert!(!looks_like_context_field("max_tokens"));
}

#[test]
fn two_addresses_are_probed() {
    let e = probe_endpoints("http://h/v1/", "m");
    assert_eq!(e.len(), 2);
    assert_eq!(e[0].url(), "http://h/v1/models/m");
    assert_eq!(e[1].url(), "http://h/v1/models");
    assert!(probe_endpoints("http://h", "").is_empty());
}

#[test]
fn a_failed_reply_tells_no_window() {
    let body = r#"{"id":"m","context_length":4096}"#;
    assert_eq!(window_from_reply(true, body, "m"), Some(4096));
    assert_eq!(window_from_reply(false, body, "m"), None);
    assert_eq!(window_from_reply(true, "not json", "m"), None);
}
