use gladiator::endpoint::Endpoint;
use gladiator::event::LlmEvent;
use gladiator::generate_object::GenerateObject;
use gladiator::json::Json;
use gladiator::lifecycle::{LifecycleState, StreamLifecycle};
use gladiator::llm_actor::LlmActor;
use gladiator::llm_error::{is_retryable_failure, LlmError};
use gladiator::llm_stream::{chunk_timeout_ms, StreamLink, StreamRun, StreamSignal, IDLE_TIMEOUT_MS};
use gladiator::loop_detector::{LoopDetector, LoopReason};
use gladiator::one_shot::{one_shot_request, request_failed, stream_failed, OneShot};
use gladiator::openai_chat::OpenAIChatProtocol;
use gladiator::provider::{merge_config, Auth, BearerAuth, NoneAuth, ProviderConfig};
use gladiator::request::{CanonicalRequest, LlmRequest};
use gladiator::schema::{ToolChoice, ToolDefinition};
use gladiator::tool_runtime::ToolRuntime;
use gladiator::tool_stream::ToolStream;
use gladiator::transport::{AttemptFailure, Retries};
use gladiator::config::LlmConfig;

fn json(text: &str) -> Json {
    Json::parse(text).unwrap()
}

fn link() -> StreamLink {
    StreamLink {
        stream_topic: "llm:stream".to_string(),
        stats_topic: "llm:stats".to_string(),
        source: "gladiator-llm-0".to_string(),
        stream_id: "s-1".to_string(),
        context_window: Some(8192),
    }
}

fn sse(json_text: &str) -> Vec<u8> {
    format!("data: {}\n\n", json_text).into_bytes()
}

fn kinds(run: &StreamRun) -> Vec<String> {
    run.out.iter().map(|m| m.meta_type().unwrap_or("").to_string()).collect()
}

fn actor(model: &str) -> LlmActor {
    let config = LlmConfig { model: model.to_string(), ..LlmConfig::default() };
    LlmActor::new(
        2,
        "llm:in".to_string(),
        "llm:out".to_string(),
        "llm:stream".to_string(),
        "llm:stats".to_string(),
        "llm:tool_calls".to_string(),
        "user:control".to_string(),
        config,
    )
}

fn failure(status: u16) -> AttemptFailure {
    AttemptFailure::Status { status, body: "body".to_string() }
}

#[test]
fn a_stream_shows_what_it_keeps() {
    let mut run = StreamRun::new(link(), 0, 0);
    let p = OpenAIChatProtocol;
    assert!(run.take_chunk(&p, &sse(r#"{"choices":[{"delta":{"content":"Hel"}}]}"#)));
    assert!(run.take_chunk(&p, &sse(r#"{"choices":[{"delta":{"content":"lo"}}]}"#)));
    let shown: String = run.out.iter().map(|m| m.payload_text()).collect();
    assert_eq!(shown, "Hello");
    assert_eq!(run.full_response, "Hello");
    assert_eq!(kinds(&run), vec!["LlmStream", "LlmStream"]);
    let outcome = run.finish(None);
    assert_eq!(outcome.payload, "Hello");
    assert!(outcome.tool_calls.is_empty());
    assert_eq!(outcome.signal, StreamSignal::Normal);
}

#[test]
fn the_pieces_of_tool_calls_do_not_mix() {
    let mut t = ToolStream::new();
    t.append_or_start(0, "a", "bash", "{\"x\":");
    t.append_or_start(1, "b", "read", "{}");
    t.append_or_start(0, "", "", "1}");
    assert_eq!(t.input_so_far(0), "{\"x\":1}");
    assert_eq!(t.input_so_far(1), "{}");
    assert_eq!(t.input_so_far(7), "");
    assert!(t.finish_one(7).is_none());
    let one = t.finish_one(1).unwrap();
    assert_eq!(one.str_at("id").unwrap(), "b");
    assert_eq!(t.finish_all().len(), 2);
}

#[test]
fn a_call_in_the_text_is_rescued() {
    let mut run = StreamRun::new(link(), 0, 0);
    run.take_event(&LlmEvent::TextDelta {
        id: "text-0".to_string(),
        text: "<tool_call>\n<function=bash>\n<parameter=command>\nls\n</parameter>\n</function>\n</tool_call>"
            .to_string(),
    });
    let tools = vec![json(r#"{"type":"function","function":{"name":"bash"}}"#)];
    let outcome = run.finish(Some(&tools));
    assert_eq!(outcome.tool_calls.len(), 1);
    let message = actor("m").outcome_message(outcome);
    assert_eq!(message.topic, "llm:tool_calls");
    assert_eq!(message.meta_type(), Some("LlmToolCalls"));
}

#[test]
fn a_stuck_stream_is_reported() {
    let mut run = StreamRun::new(link(), 0, 50);
    let p = OpenAIChatProtocol;
    let chunk = sse(r#"{"choices":[{"delta":{"content":"abcdefghij abcdefghij abcdefghij abcdefghij abcdefghij abcdefghij"}}]}"#);
    let mut on = true;
    for _ in 0..5_000 {
        on = run.take_chunk(&p, &chunk);
        if !on {
            break;
        }
    }
    assert!(!on);
    assert_eq!(run.signal, StreamSignal::StuckLoop);
    let message = actor("m").outcome_message(run.finish(None));
    assert_eq!(message.meta_type(), Some("LlmStuckLoop"));
    assert_eq!(message.topic, "llm:out");
}

#[test]
fn silence_ends_a_stream() {
    let mut run = StreamRun::new(link(), 0, 0);
    assert!(run.on_timeout(IDLE_TIMEOUT_MS).is_ok());
    assert_eq!(run.signal, StreamSignal::Idle);
    let mut early = StreamRun::new(link(), 0, 0);
    assert!(early.on_timeout(IDLE_TIMEOUT_MS - 1).is_err());
    assert_eq!(chunk_timeout_ms(300, 0), IDLE_TIMEOUT_MS);
    assert_eq!(chunk_timeout_ms(1, 0), 1000);
    assert_eq!(chunk_timeout_ms(300, IDLE_TIMEOUT_MS + 5), 1);
}

#[test]
fn a_broken_stream_tells_how_much_came() {
    let mut run = StreamRun::new(link(), 0, 0);
    run.take_event(&LlmEvent::TextDelta { id: "t".to_string(), text: "né".to_string() });
    match run.on_stream_error("reset") {
        LlmError::StreamInterrupted(n, e) => {
            assert_eq!(n, 3);
            assert_eq!(e, "reset");
        }
        _ => panic!("expected an interruption"),
    }
}

#[test]
fn blocks_of_a_stream_nest() {
    let mut life = StreamLifecycle::new();
    let mut out = Vec::new();
    life.reasoning_delta(&mut out, "hm");
    life.text_delta(&mut out, "answer");
    life.finish(&mut out, "stop");
    assert_eq!(life.state, LifecycleState::Idle);
    assert_eq!(out.len(), 7);
    assert!(matches!(&out[0], LlmEvent::ReasoningStart { .. }));
    assert!(matches!(&out[2], LlmEvent::ReasoningEnd { .. }));
    assert!(matches!(&out[3], LlmEvent::TextStart { .. }));
    assert!(matches!(&out[5], LlmEvent::TextEnd { .. }));
    assert!(matches!(&out[6], LlmEvent::Finish { reason, .. } if reason == "stop"));
}

#[test]
fn a_fired_detector_stays_fired() {
    let mut d = LoopDetector::new();
    d.min_total_chars = 0;
    d.max_total_chars = 5;
    assert_eq!(d.push("abcdef"), Some(LoopReason::HardCapHit));
    assert_eq!(d.last_reason, Some(LoopReason::HardCapHit));
    assert!(d.push("x").is_none() || d.last_reason == Some(LoopReason::HardCapHit));
    assert!(d.fed_chars >= 6);
}

#[test]
fn delays_double_until_the_retries_are_used_up() {
    let mut r = Retries::new(2, 500, 30);
    assert_eq!(r.after_failure(failure(503)).unwrap(), 500);
    assert_eq!(r.after_failure(failure(429)).unwrap(), 1000);
    match r.after_failure(failure(503)) {
        Err(LlmError::Api { status, body }) => {
            assert_eq!(status, 503);
            assert_eq!(body, "body");
        }
        _ => panic!("expected the status"),
    }
    let mut once = Retries::new(5, 1, 30);
    assert!(matches!(once.after_failure(failure(400)), Err(LlmError::Api { status: 400, .. })));
    let mut none = Retries::new(0, 1, 30);
    assert!(matches!(none.after_failure(AttemptFailure::TimedOut), Err(LlmError::Timeout(30))));
    let broken = AttemptFailure::Transport { message: "dns".to_string(), retryable: false };
    assert!(matches!(once.after_failure(broken), Err(LlmError::Network(m)) if m == "dns"));
}

#[test]
fn failures_that_may_pass() {
    assert!(is_retryable_failure(true, false, None));
    assert!(is_retryable_failure(false, true, None));
    assert!(is_retryable_failure(false, false, Some(502)));
    assert!(!is_retryable_failure(false, false, Some(404)));
    assert!(!is_retryable_failure(false, false, None));
}

#[test]
fn errors_in_words() {
    assert_eq!(LlmError::Network("x".to_string()).message(), "Network error: x");
    assert!(LlmError::Timeout(7).message().contains('7'));
    assert!(LlmError::Api { status: 500, body: "b".to_string() }.message().contains("500"));
    assert!(LlmError::Stream("s".to_string()).message().contains('s'));
    assert!(LlmError::StreamInterrupted(9, "cut".to_string()).message().contains("cut"));
    assert!(LlmError::Other("odd".to_string()).message().contains("odd"));
    let e = LlmError::Network("x".to_string());
    assert_eq!(request_failed(&e), "LLM request failed: Network error: x");
    assert_eq!(stream_failed("y"), "Stream error: y");
}

#[test]
fn addresses_have_one_slash_between_their_parts() {
    assert_eq!(Endpoint::new("http://h/v1//", "models").url(), "http://h/v1/models");
    assert_eq!(Endpoint::new("http://h/v1", "/models").url(), "http://h/v1/models");
}

#[test]
fn a_request_carries_the_key() {
    let route = ProviderConfig::new("openai", "http://h/v1/", "key").openai_chat_route();
    let request = CanonicalRequest {
        model: "m".to_string(),
        messages: vec![json(r#"{"role":"user","content":"hi"}"#)],
        tools: None,
        tool_choice: None,
        temperature: None,
        max_tokens: Some(5),
        stream: true,
        grammar: None,
    };
    let p = route.prepare(&request);
    assert_eq!(p.url, "http://h/v1/chat/completions");
    assert_eq!(p.headers[1].1, "Bearer key");
    assert_eq!(p.body.get("max_tokens").unwrap().as_u64(), Some(5));
    assert_eq!(
        BearerAuth { token: "t".to_string() }.header(),
        Some(("Authorization".to_string(), "Bearer t".to_string()))
    );
    assert_eq!(NoneAuth.header(), None);
}

#[test]
fn a_request_without_a_model_is_refused() {
    let request = LlmRequest {
        messages: None,
        prompt: "hi".to_string(),
        config: None,
        tools: None,
        grammar: None,
    };
    let refused = actor("").accept(&request).unwrap_err();
    assert_eq!(refused.payload_text(), "Error: LLM model name is empty");
    assert_eq!(refused.meta_type(), Some("LlmError"));
    let call = actor("m").accept(&request).unwrap();
    let messages = call.request.body.get("messages").unwrap().as_array().unwrap();
    assert_eq!(messages[0].str_at("content").unwrap(), "hi");
    assert!(one_shot_request(&LlmConfig { model: String::new(), ..LlmConfig::default() }, "q").is_err());
}

#[test]
fn merging_twice_changes_nothing() {
    let base = LlmConfig { model: "base".to_string(), ..LlmConfig::default() };
    let over = LlmConfig { model: "over".to_string(), ..LlmConfig::default() };
    let once = merge_config(&base, Some(&over));
    let twice = merge_config(&once, Some(&over));
    assert_eq!(once, twice);
    assert_eq!(once.model, "over");
}

#[test]
fn a_one_shot_call_gathers_the_text() {
    let mut call = OneShot::new();
    let p = OpenAIChatProtocol;
    call.take_chunk(&p, &sse(r#"{"choices":[{"delta":{"content":"four"}}]}"#));
    call.take_chunk(&p, &sse(r#"{"choices":[{"delta":{"content":"ty-two"}}]}"#));
    call.take_chunk(&p, b"data: [DONE]\n\n");
    assert_eq!(call.finish(), "fourty-two");
}

#[test]
fn tool_choices_as_the_interface_wants_them() {
    assert_eq!(ToolChoice::Auto.to_openai_value(), json("\"auto\""));
    assert_eq!(ToolChoice::NoTool.to_openai_value(), json("\"none\""));
    assert_eq!(ToolChoice::Required.to_openai_value(), json("\"required\""));
    assert_eq!(
        ToolChoice::Tool("x".to_string()).to_openai_value(),
        json(r#"{"type":"function","function":{"name":"x"}}"#)
    );
}

#[test]
fn an_object_is_the_argument_of_a_tool() {
    let g = GenerateObject::new(json(r#"{"a":{"type":"string"}}"#));
    assert_eq!(g.tool_definition().name, "generate_object");
    let events = vec![LlmEvent::ToolCall {
        id: "1".to_string(),
        name: "generate_object".to_string(),
        input: json(r#"{"a":"b"}"#),
    }];
    assert_eq!(g.parse_response(&events).unwrap(), json(r#"{"a":"b"}"#));
    assert_eq!(g.parse_response(&[]).unwrap_err(), "No generate_object tool call found");
}

#[test]
fn a_runtime_finds_its_tools() {
    let mut r = ToolRuntime::new();
    let tool = |d: &str| ToolDefinition {
        name: "t".to_string(),
        description: d.to_string(),
        parameters: Json::object(),
    };
    assert_eq!(r.register(tool("one")), 0);
    assert_eq!(r.register(tool("two")), 0);
    assert_eq!(r.tool_definitions().len(), 1);
    assert_eq!(r.tool_definitions()[0].description, "two");
    assert_eq!(r.find("t"), Ok(0));
    assert_eq!(r.find("u"), Err("Tool 'u' not found".to_string()));
}

#[test]
fn a_result_under_the_reserved_key_is_converted() {
    let g = GenerateObject { schema: json("{}") };
    let mut input = Json::object();
    input.set("$serde_json::private::RawValue", Json::text("{\"a\":1}"));
    let call = |input: &Json| {
        vec![LlmEvent::ToolCall {
            id: "1".to_string(),
            name: "generate_object".to_string(),
            input: input.clone(),
        }]
    };
    assert_eq!(g.parse_response(&call(&input)).unwrap(), json("{\"a\":1}"));
    input.set("$serde_json::private::RawValue", Json::UInt(5));
    let why = g.parse_response(&call(&input)).unwrap_err();
    assert!(why.starts_with("Failed to parse generate_object response: "));
    assert_eq!(g.parse_response(&call(&json("[2]"))).unwrap(), json("[2]"));
}
