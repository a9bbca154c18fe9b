use gladiator::agent::{after_publish, AgentActor, AgentState, Effect, PublishStep};
use gladiator::agent_events::StateCommand;
use gladiator::agent_tools::{
    is_handled_inline, resolve_against_working_dir, result_text, RestartIo, ToolWorld,
};
use gladiator::config::{AgentConfig, LlmConfig};
use gladiator::json::Json;
use gladiator::message::Message;
use gladiator::state::ConversationState;
use gladiator::tool::ToolResultMessage;

fn json(text: &str) -> Json {
    Json::parse(text).unwrap()
}

fn agent() -> AgentActor {
    AgentActor::new(
        0,
        "agent:in".to_string(),
        "llm:in".to_string(),
        "llm:out".to_string(),
        "llm:stream".to_string(),
        "llm:tool_calls".to_string(),
        "tool:results".to_string(),
        "agent:stream".to_string(),
        AgentConfig::default(),
    )
    .with_max_iterations(3)
    .with_state_topics("agent:control".to_string(), "agent:state".to_string())
}

fn world() -> ToolWorld {
    ToolWorld {
        now_ms: 5_000,
        percent: "0".to_string(),
        cwd: "/work".to_string(),
        backup_path: "/work/tmp/backup.json".to_string(),
        restart: RestartIo::Done("## Goal".to_string()),
    }
}

fn input(text: &str) -> Message {
    Message::text("agent:in", "ui", text)
}

fn calls(text: &str) -> Message {
    Message::new("llm:tool_calls", "llm", json(text))
}

fn requests(effects: &[Effect]) -> usize {
    effects.iter().filter(|e| matches!(e, Effect::Request(_))).count()
}

fn published(effects: &[Effect], kind: &str) -> Vec<String> {
    let mut out = Vec::new();
    for e in effects {
        if let Effect::Publish(m) = e {
            if m.meta_type() == Some(kind) {
                out.push(m.payload_text());
            }
        }
    }
    out
}

fn result(id: &str, name: &str, text: &str) -> ToolResultMessage {
    ToolResultMessage::from_outcome(name, id, Ok(text.to_string()))
}

const BASH_CALL: &str =
    r#"[{"id":"c1","type":"function","function":{"name":"bash","arguments":"{\"command\":\"ls\"}"}}]"#;

#[test]
fn a_user_message_starts_a_turn() {
    let a = agent();
    let mut st = AgentState::new(None);
    a.on_user_input(&mut st, &input("hello"));
    assert!(st.conv.inference_in_flight);
    assert_eq!(st.conv.messages.len(), 1);
    let effects = st.take_effects();
    assert_eq!(requests(&effects), 1);
    assert!(st.take_effects().is_empty());
}

#[test]
fn a_message_during_a_request_is_queued() {
    let a = agent();
    let mut st = AgentState::new(None);
    a.on_user_input(&mut st, &input("hello"));
    st.take_effects();
    a.on_user_input(&mut st, &input("and this"));
    assert_eq!(st.conv.pending_messages, vec!["and this".to_string()]);
    assert_eq!(st.conv.messages.len(), 1);
    assert_eq!(requests(&st.take_effects()), 0);
    // The queue starts the next turn.
    let loop_check = a.on_llm_output(&mut st, &Message::text("llm:out", "llm", "hi"), 1);
    assert!(!loop_check);
    assert!(st.conv.pending_messages.is_empty());
    assert_eq!(st.conv.messages.len(), 3);
    assert_eq!(requests(&st.take_effects()), 1);
}

#[test]
fn an_answer_ends_the_turn() {
    let a = agent();
    let mut st = AgentState::new(None);
    a.on_user_input(&mut st, &input("hello"));
    st.take_effects();
    assert!(a.on_llm_output(&mut st, &Message::text("llm:out", "llm", "hi"), 1));
    assert!(!st.conv.inference_in_flight);
    assert_eq!(st.conv.messages[1].str_at("content").unwrap(), "hi");
    assert_eq!(requests(&st.take_effects()), 0);
}

#[test]
fn tool_calls_go_out_and_their_results_come_back() {
    let a = agent();
    let mut st = AgentState::new(None);
    a.on_user_input(&mut st, &input("list"));
    st.take_effects();
    let batch = a.on_tool_calls(&mut st, &calls(BASH_CALL)).unwrap();
    assert_eq!(st.conv.iteration_count, 1);
    for (i, tc) in batch.iter().enumerate() {
        a.dispatch_tool_call(&mut st, i, tc, &world());
    }
    let effects = st.take_effects();
    let executed: Vec<&Message> = effects
        .iter()
        .filter_map(|e| match e {
            Effect::Publish(m) if m.topic == "tool:bash:execute" => Some(m),
            _ => None,
        })
        .collect();
    assert_eq!(executed.len(), 1);
    assert_eq!(executed[0].payload.str_at("tool_call_id").unwrap(), "c1");
    assert_eq!(
        executed[0].payload.get("arguments").unwrap().str_at("command").unwrap(),
        "ls"
    );
    assert!(!st.conv.all_tool_calls_resolved());
    a.on_tool_result(&mut st, &result("c1", "bash", "a.txt"), 2);
    assert!(st.conv.all_tool_calls_resolved());
    assert_eq!(requests(&st.take_effects()), 1);
}

#[test]
fn a_payload_of_tool_calls_that_is_no_array_is_ignored() {
    let a = agent();
    let mut st = AgentState::new(None);
    assert!(a.on_tool_calls(&mut st, &calls("{}")).is_none());
    assert!(st.conv.messages.is_empty());
}

#[test]
fn broken_arguments_are_answered_with_an_error() {
    let a = agent();
    let mut st = AgentState::new(None);
    let batch = a
        .on_tool_calls(
            &mut st,
            &calls(r#"[{"id":"c1","function":{"name":"bash","arguments":"{oops"}}]"#),
        )
        .unwrap();
    a.dispatch_tool_call(&mut st, 0, &batch[0], &world());
    assert!(st.conv.all_tool_calls_resolved());
    let last = st.conv.messages.last().unwrap();
    assert!(last.str_at("content").unwrap().contains("Error parsing arguments: "));
}

#[test]
fn the_limit_of_iterations_stops_the_agent() {
    let a = agent();
    let mut st = AgentState::new(None);
    a.on_user_input(&mut st, &input("go"));
    for n in 0..3 {
        let batch = a.on_tool_calls(&mut st, &calls(BASH_CALL)).unwrap();
        a.dispatch_tool_call(&mut st, 0, &batch[0], &world());
        st.take_effects();
        a.on_tool_result(&mut st, &result("c1", "bash", &n.to_string()), 2);
    }
    let effects = st.take_effects();
    assert_eq!(requests(&effects), 0);
    assert!(effects
        .iter()
        .any(|e| matches!(e, Effect::SaveFile { path, .. } if path == "tmp/maxiter-handoff.txt")));
    assert_eq!(st.conv.surprises.len(), 1);
}

#[test]
fn a_subagent_returns_to_its_parent() {
    let a = agent();
    let mut st = AgentState::new(None);
    a.on_user_input(&mut st, &input("delegate"));
    let batch = a
        .on_tool_calls(
            &mut st,
            &calls(
                r#"[{"id":"s1","function":{"name":"call_subagent","arguments":"{\"task\":\"count files\"}"}}]"#,
            ),
        )
        .unwrap();
    a.dispatch_tool_call(&mut st, 0, &batch[0], &world());
    assert_eq!(st.stack.len(), 1);
    assert_eq!(st.conv.subagent_depth, 1);
    st.take_effects();
    a.on_llm_output(&mut st, &Message::text("llm:out", "llm", "there are 3"), 3);
    assert_eq!(st.stack.len(), 0);
    assert_eq!(st.conv.subagent_depth, 0);
    let last = st.conv.messages.last().unwrap();
    assert_eq!(last.str_at("tool_call_id").unwrap(), "s1");
    assert!(last.str_at("content").unwrap().contains("there are 3"));
    assert_eq!(requests(&st.take_effects()), 1);
}

#[test]
fn todo_tools_keep_one_item_in_progress() {
    let a = agent();
    let mut st = AgentState::new(None);
    let args = json(
        r#"{"todos":[{"content":"a","status":"in_progress"},{"content":"b","status":"in_progress"}]}"#,
    );
    let out = a.handle_internal_tool(&mut st, "todo_write", &args, &world());
    assert!(out.success);
    assert_eq!(st.conv.todos.len(), 2);
    assert_eq!(st.conv.todos[0].status.as_str(), "in_progress");
    assert_eq!(st.conv.todos[1].status.as_str(), "pending");
    let read = a.handle_internal_tool(&mut st, "todo_read", &json("{}"), &world());
    assert!(read.result_text.contains("[~] 1 medium — a"));
    let bad = a.handle_internal_tool(&mut st, "todo_write", &json("{}"), &world());
    assert!(!bad.success);
}

#[test]
fn a_restart_wipes_the_conversation_once_it_is_backed_up() {
    let a = agent();
    let mut st = AgentState::new(None);
    st.conv.add_user_message("old");
    let args = json(r#"{"file":"handoff.md","filename":"handoff.md","file_path":"handoff.md"}"#);
    let mut w = world();
    w.restart = RestartIo::ReadFailed("gone".to_string());
    let refused = a.handle_internal_tool(&mut st, "restart_from_file", &args, &w);
    assert!(!refused.success);
    assert_eq!(st.conv.messages.len(), 1);
    let done = a.handle_internal_tool(&mut st, "restart_from_file", &args, &world());
    assert!(done.success);
    assert!(done.context_reset);
    assert_eq!(st.conv.messages.len(), 1);
    assert!(st.conv.messages[0].str_at("content").unwrap().contains("---BEGIN HANDOFF---"));
}

#[test]
fn wake_ups_are_due_once() {
    let a = agent();
    let mut st = AgentState::new(None);
    st.conv.add_one_shot_wake_up(10, 5, "look again");
    a.on_wake_timer(&mut st, 14_000);
    assert!(st.conv.messages.is_empty());
    a.on_wake_timer(&mut st, 15_000);
    assert_eq!(st.conv.messages.len(), 1);
    assert!(st.conv.wake_ups.is_empty());
}

#[test]
fn recurring_wake_ups_stay() {
    let mut c = ConversationState::new();
    c.add_cron_wake_up(10, 5, 60, "tick");
    assert_eq!(c.check_wake_ups(15), vec!["tick".to_string()]);
    assert!(c.check_wake_ups(16).is_empty());
    assert_eq!(c.check_wake_ups(75), vec!["tick".to_string()]);
}

#[test]
fn context_reminders_fire_once() {
    let mut c = ConversationState::new();
    c.add_context_reminder(1000, "wrap up");
    assert!(c.check_context_reminders(1000).is_empty());
    assert_eq!(c.check_context_reminders(1001), vec!["wrap up".to_string()]);
    assert_eq!(c.pending_messages, vec!["wrap up".to_string()]);
    assert!(c.check_context_reminders(2000).is_empty());
}

#[test]
fn state_commands_are_for_one_agent() {
    let a = agent();
    let other = Message::new(
        "agent:control",
        "p",
        json(r#"{"type":"dump_state","agent_id":"gladiator-agent-1"}"#),
    );
    assert!(matches!(a.state_command(&other), StateCommand::Ignore));
    let mine = Message::new(
        "agent:control",
        "p",
        json(r#"{"type":"load_state","agent_id":"gladiator-agent-0","state":5}"#),
    );
    assert!(matches!(a.state_command(&mine), StateCommand::Load(Json::UInt(5))));
}

#[test]
fn a_dump_loads_back() {
    let a = agent();
    let mut st = AgentState::new(None);
    st.conv.add_user_message("hello");
    st.conv.add_tool_calls(vec![json(BASH_CALL).as_array().unwrap()[0].clone()]);
    st.conv.buffer_user_message("later".to_string());
    st.conv.append_reasoning("transient");
    let dump = a.dump_message(&st).unwrap();
    assert_eq!(dump.topic, "agent:state");
    let text = dump.payload.get("state").unwrap().write_pretty();
    let back = ConversationState::from_json(&json(&text)).unwrap();
    assert_eq!(back.messages, st.conv.messages);
    assert_eq!(back.pending_messages, st.conv.pending_messages);
    assert!(back.pending_tool_calls.contains("c1"));
    assert!(back.current_reasoning.is_empty());
    let mut fresh = AgentState::new(None);
    a.on_state_loaded(&mut fresh, Ok(back));
    assert_eq!(fresh.conv.messages.len(), 2);
    let effects = fresh.take_effects();
    assert_eq!(published(&effects, "Info"), vec!["State loaded successfully".to_string()]);
    a.on_state_loaded(&mut fresh, Err("bad".to_string()));
    let effects = fresh.take_effects();
    assert_eq!(published(&effects, "Error"), vec!["Failed to load state: bad".to_string()]);
    assert_eq!(fresh.conv.messages.len(), 2);
}

#[test]
fn a_state_that_lacks_a_part_is_refused() {
    assert!(ConversationState::from_json(&json("{}")).is_none());
    assert!(ConversationState::from_json(&json("[]")).is_none());
    let whole = r#"{"messages":[],"iteration_count":1,"pending_tool_calls":["a","a"],"pending_messages":[],"was_interrupted":true}"#;
    let s = ConversationState::from_json(&json(whole)).unwrap();
    assert_eq!(s.pending_tool_calls.len(), 1);
    assert!(s.was_interrupted);
    let big = whole.replace("\"iteration_count\":1", "\"iteration_count\":4294967296");
    assert!(ConversationState::from_json(&json(&big)).is_none());
}

#[test]
fn three_equal_turns_break_the_loop() {
    let a = agent();
    let mut st = AgentState::new(None);
    let mut broke = Vec::new();
    for _ in 0..3 {
        let batch = a.on_tool_calls(&mut st, &calls(BASH_CALL)).unwrap();
        broke.push(a.maybe_break_cross_turn_loop(&mut st, 4, 9));
        st.conv.add_tool_result("c1", "bash", "same", true);
        st.conv.resolve_tool_call("c1");
        assert_eq!(batch.len(), 1);
    }
    assert_eq!(broke, vec![false, false, true]);
}

#[test]
fn a_stuck_model_is_triaged() {
    let a = agent().with_llm_config(LlmConfig::default());
    let mut st = AgentState::new(None);
    a.triage_stuck_model(&mut st, "went idle", "half a thought", 7);
    assert_eq!(st.conv.surprises.len(), 1);
    let effects = st.take_effects();
    assert!(effects.iter().any(|e| matches!(e, Effect::Triage { .. })));
    a.on_triage_guidance(&mut st, "went idle", "try another way");
    let effects = st.take_effects();
    assert!(effects.iter().any(|e| matches!(
        e,
        Effect::Publish(m) if m.topic == "agent:in" && m.payload_text().contains("try another way")
    )));
}

#[test]
fn publishing_is_tried_again() {
    assert_eq!(after_publish(0, true), PublishStep::Done);
    assert!(matches!(after_publish(0, false), PublishStep::Retry(_)));
    assert_eq!(after_publish(1000, false), PublishStep::GiveUp);
}

#[test]
fn paths_resolve_against_the_working_directory() {
    assert_eq!(resolve_against_working_dir("/a", "/w", "/c"), "/a");
    assert_eq!(resolve_against_working_dir("~/a", "/w", "/c"), "~/a");
    assert_eq!(resolve_against_working_dir("a", "/w", "/c"), "/w/a");
    assert_eq!(resolve_against_working_dir("a", ".", "/c"), "/c/a");
}

#[test]
fn internal_calls_are_handled_inline() {
    assert!(is_handled_inline("todo_write"));
    assert!(is_handled_inline("call_subagent"));
    assert!(!is_handled_inline("bash"));
    assert!(result_text(true, "bash", "c1", "out").contains("bash"));
}

#[test]
fn used_context_is_counted() {
    let mut c = ConversationState::new();
    assert_eq!(c.context_remaining(), None);
    c.record_usage(
        gladiator::event::Usage {
            input_tokens: Some(600),
            output_tokens: Some(100),
            total_tokens: Some(700),
            reasoning_tokens: None,
        },
        Some(1000),
    );
    assert_eq!(c.used_tokens(), 600);
    assert_eq!(c.context_remaining(), Some(400));
    assert_eq!(
        c.context_status_line("60"),
        "context: 600/1000 tokens used (60%), 400 remaining"
    );
}

#[test]
fn nothing_is_left_where_no_usage_is_known() {
    let mut c = ConversationState::new();
    c.context_window = Some(1000);
    assert_eq!(c.context_remaining(), None);
    assert_eq!(c.context_status_line("0"), "context: no usage reported yet");
    c.record_usage(
        gladiator::event::Usage {
            input_tokens: None,
            output_tokens: Some(1),
            total_tokens: None,
            reasoning_tokens: None,
        },
        None,
    );
    assert_eq!(c.context_remaining(), None);
}

#[test]
fn a_turn_unlike_the_one_before_is_no_loop() {
    let mut c = ConversationState::new();
    assert_eq!(c.record_turn_and_check_loop(), 0);
    c.add_assistant_message("a");
    assert_eq!(c.record_turn_and_check_loop(), 0);
    c.add_assistant_message("a");
    assert_eq!(c.record_turn_and_check_loop(), 2);
    c.add_assistant_message("b");
    assert_eq!(c.record_turn_and_check_loop(), 0);
    for _ in 0..12 {
        c.add_assistant_message("c");
        c.record_turn_and_check_loop();
    }
    assert_eq!(c.recent_turn_hashes.len(), 10);
    c.add_assistant_message("c");
    assert_eq!(c.record_turn_and_check_loop(), 10);
}

#[test]
fn a_loop_collapses_to_one_note() {
    let mut c = ConversationState::new();
    c.add_user_message("go");
    for _ in 0..3 {
        c.add_assistant_message("same");
        c.record_turn_and_check_loop();
        c.add_user_message("again");
    }
    let before = c.messages.len();
    assert_eq!(c.collapse_loop_turns(), 4);
    assert_eq!(c.messages.len(), before - 4 + 1);
    assert_eq!(c.messages[0].str_at("content"), Some("go"));
    assert_eq!(c.messages[1].str_at("role"), Some("system"));
    assert!(c.messages[1].str_at("content").unwrap().contains("2 duplicate turn-cycles"));
    assert_eq!(c.messages[2].str_at("content"), Some("same"));
    assert_eq!(c.messages[3].str_at("content"), Some("again"));
    assert!(c.recent_turn_hashes.is_empty());
}

#[test]
fn a_forwarded_chunk_keeps_its_reference() {
    let a = agent();
    let mut st = AgentState::new(None);
    let m = Message::text("llm:stream", "llm", "x").with_type("LlmStream");
    a.on_stream(&mut st, &m);
    match st.take_effects().pop() {
        Some(Effect::Publish(p)) => assert_eq!(p.reference, m.reference),
        _ => panic!("nothing was forwarded"),
    }
}

#[test]
fn a_state_may_be_written_by_position() {
    let s = ConversationState::from_json(&json(
        r#"[[{"role":"user","content":"hi"}],3,["a"],["later"],true,[["t"]]]"#,
    ))
    .unwrap();
    assert_eq!(s.messages[0].str_at("content"), Some("hi"));
    assert_eq!(s.iteration_count, 3);
    assert!(s.pending_tool_calls.contains("a"));
    assert_eq!(s.pending_messages, vec!["later".to_string()]);
    assert!(s.was_interrupted);
    assert_eq!(s.todos[0].content, "t");
    assert!(ConversationState::from_json(&json("[[],0,[],[],false]")).is_some());
    assert!(ConversationState::from_json(&json("[[],0,[],[]]")).is_none());
    assert!(ConversationState::from_json(&json("[[],0,[],[],false,[],1]")).is_none());
}
