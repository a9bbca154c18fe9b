//! Gladiator: the verified core of an actor-based coding agent.

pub mod actor;
pub mod agent;
pub mod agent_events;
pub mod agent_laws;
pub mod agent_tools;
pub mod agent_turn;
pub mod answer_laws;
pub mod args_fixer;
pub mod bash_tool;
pub mod bus;
pub mod bytes;
pub mod calendar;
pub mod call_laws;
pub mod config;
pub mod doctor_laws;
pub mod endpoint;
pub mod event;
pub mod file_tools;
pub mod five_whys;
pub mod flow_laws;
pub mod framing;
pub mod generate_object;
pub mod inline_laws;
pub mod internal_tools;
pub mod json;
pub mod json_eq;
pub mod lifecycle;
pub mod likeness_laws;
pub mod llm_actor;
pub mod llm_error;
pub mod llm_laws;
pub mod llm_stream;
pub mod loop_detector;
pub mod markup;
pub mod markup_laws;
pub mod mcp;
pub mod memory_laws;
pub mod message;
pub mod model_laws;
pub mod model_probe;
pub mod naming_laws;
pub mod notes;
pub mod one_shot;
pub mod openai_chat;
pub mod outgoing_doctor;
pub mod patterns;
pub mod persistence;
pub mod probe_laws;
pub mod provider;
pub mod repair_laws;
pub mod request;
pub mod rescue_laws;
pub mod saved_state;
pub mod schedule;
pub mod schema;
pub mod schema_laws;
pub mod search_laws;
pub mod search_tools;
pub mod server;
pub mod service_laws;
pub mod similarity;
pub mod sorting;
pub mod state;
pub mod state_laws;
pub mod step_laws;
pub mod stream_laws;
pub mod string_map;
pub mod string_set;
pub mod summary;
pub mod text;
pub mod text_laws;
pub mod todo;
pub mod tool;
pub mod tool_call_rescue;
pub mod tool_laws;
pub mod tool_runtime;
pub mod tool_stream;
pub mod transport;
pub mod turn_laws;
pub mod web_fetch;
pub mod wire;
