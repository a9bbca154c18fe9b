# Gladiator

The verified core of an actor-based coding agent, written in Verus, and the running agent
around it.

- `src/` is the library. Verus proves every function in it against its contract, or against
  that of the trait it belongs to, but for the few wrappers around outside crates, each of which
  says what it claims of the call it makes.
- `app/` is ordinary Rust: the bus, HTTP, files, processes and timers. It hears events, hands
  them to the library, and performs what the library decides.
- `tests/` runs the library on concrete values.

## The library

| Modules | What they hold |
|---|---|
| `text`, `bytes`, `sorting`, `string_set`, `string_map`, `calendar` | texts, UTF-8 lengths, collections, dates |
| `json`, `json_eq`, `wire` | JSON values, their equality, and the forms in which messages travel |
| `message`, `actor`, `bus`, `config`, `server` | messages, actors, who may speak on the bus, settings, the lists of the HTTP server |
| `state`, `state_laws`, `saved_state`, `schedule`, `summary` | the conversation: messages, pending calls, loop detection, reminders, saving and loading |
| `internal_tools`, `todo`, `five_whys`, `outgoing_doctor` | tools that the agent handles itself, incidents, repair of outgoing conversations |
| `agent`, `agent_turn`, `agent_tools`, `agent_events`, `agent_laws` | the agent as a state machine: events in, effects out |
| `request`, `provider`, `endpoint`, `schema`, `generate_object`, `transport`, `llm_error`, `model_probe` | requests to the model, retries, the context window |
| `event`, `lifecycle`, `tool_stream`, `framing`, `openai_chat`, `llm_stream`, `llm_actor`, `llm_laws`, `one_shot` | responses of the model, piece by piece |
| `similarity`, `loop_detector`, `args_fixer`, `tool_call_rescue` | a stream that goes in circles, broken arguments, calls hidden in text |
| `tool`, `tool_runtime`, `file_tools`, `bash_tool`, `search_tools`, `patterns`, `web_fetch`, `markup`, `notes`, `mcp` | tools: what they plan, check and answer |
| `persistence` | saving agents to files and loading them |

Types are modelled by ghost structs whose names end in `V`. A function that changes a value
says that its view afterwards is a spec function of its view before. Laws that relate several
functions are public proof functions whose names begin with `lemma_`.

Percentages, temperatures and other floating-point numbers stay outside: the library takes
them as decimal texts, and shares of words as ratios of integers.
