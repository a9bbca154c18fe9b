//! What is asked of a model, and what is made of its response.

use crate::config::LlmConfigV;
use crate::endpoint::{rooted, without_slashes};
use crate::event::{stats_json, text_of, usage_json, EventV, ResponseV, StreamStats, Usage};
use crate::framing::{data_of, lemma_pieces_join, payloads};
use crate::generate_object::object_from;
use crate::json::{json_parse, keys_once, lemma_get_entry, JsonV};
use crate::llm_actor::{canonical_for, interrupt_reason, is_sent_as, LlmActor};
use crate::llm_error::LlmError;
use crate::llm_stream::{
    fresh_detector, names_of, offered_names, LinkV, OutcomeV, RunV, StreamSignal,
};
use crate::message::{lemma_metadata_reads_back, MessageV};
use crate::model_probe::{listed_window, model_from, names_window, own_window, replied_window};
use crate::model_probe::stated_window;
use crate::one_shot::{question, OneShotV};
use crate::openai_chat::{OpenAIChatProtocol, Protocol, StreamStateV};
use crate::provider::{effective_config, headers};
use crate::similarity::Ratio;
use crate::request::{canonical_of, config_json, effective_messages, CanonicalV, LlmRequestV};
use crate::stream_laws::{
    delta_in, deltas_in, fed, lemma_body_carries_request, lemma_chunk_feeds_calls,
    lemma_chunk_is_passed_on, pieces_in, reasoning_of, text_at,
};
use crate::text::{contains, dec, lines_from, lowercase, starts_with};
use crate::text_laws::lemma_first_line;
use crate::tool_call_rescue::rescued_calls;
use crate::transport::{may_pass, reported, AttemptFailure, PreparedRequest, Retries};
use vstd::prelude::*;

verus! {

// ---- a stream

proof fn lemma_stuck_before(r: RunV, es: Seq<EventV>, n: int)
    requires
        n > 0,
        r.events(es, n).signal != StreamSignal::StuckLoop,
    ensures
        r.events(es, n - 1).signal != StreamSignal::StuckLoop,
{
}

/// A stream that the detector does not end keeps all that came in: its text is that of the text
/// deltas, its reasoning that of the reasoning deltas.
pub proof fn lemma_stream_keeps_all(r: RunV, es: Seq<EventV>, n: int)
    requires
        0 <= n <= es.len(),
        r.events(es, n).signal != StreamSignal::StuckLoop,
    ensures
        r.events(es, n).full == r.full + text_of(es.take(n)),
        r.events(es, n).reasoning == r.reasoning + reasoning_of(es.take(n)),
        r.events(es, n).link == r.link,
        r.events(es, n).state == r.state,
        r.events(es, n).signal == r.signal,
    decreases n,
{
    if n > 0 {
        lemma_stuck_before(r, es, n);
        lemma_stream_keeps_all(r, es, n - 1);
        assert(es.take(n).drop_last() =~= es.take(n - 1));
        assert(es.take(n).last() == es[n - 1]);
        let u = r.events(es, n - 1);
        let v = r.events(es, n);
        match es[n - 1] {
            EventV::TextDelta { text, .. } => {
                assert(v.full =~= r.full + (text_of(es.take(n - 1)) + text));
            },
            EventV::ReasoningDelta { text, .. } => {
                assert(v.reasoning =~= r.reasoning + (reasoning_of(es.take(n - 1)) + text));
            },
            _ => {},
        }
    } else {
        assert(es.take(0) =~= Seq::empty());
        assert(r.full + Seq::<char>::empty() =~= r.full);
        assert(r.reasoning + Seq::<char>::empty() =~= r.reasoning);
    }
}

/// Text and reasoning are counted, and end the stream where the detector says so; nothing else
/// does.
pub proof fn lemma_output_is_watched(r: RunV, e: EventV)
    requires
        r.rx_chars <= usize::MAX,
    ensures
        ({
            let v = r.event(e);
            let text = match e {
                EventV::TextDelta { text, .. } => text,
                EventV::ReasoningDelta { text, .. } => text,
                _ => Seq::empty(),
            };
            &&& v.detector == r.detector.push(text)
            &&& r.rx_chars + text.len() <= usize::MAX ==> v.rx_chars == r.rx_chars + text.len()
            &&& text.len() > 0 && v.detector.last_reason is Some ==> v.signal
                == StreamSignal::StuckLoop
            &&& text.len() == 0 || v.detector.last_reason is None ==> v.signal == r.signal
        }),
{
}

/// Whether the message tells of a tool call: which, by which id and name, and with what
/// arguments.
pub open spec fn tells_of_call(
    m: MessageV,
    topic: Seq<char>,
    index: usize,
    id: Seq<char>,
    name: Seq<char>,
    args: Seq<char>,
) -> bool {
    &&& m.topic == topic
    &&& m.meta.get("type"@) == Some(JsonV::Str("LlmToolCall"@))
    &&& m.payload.get("index"@) == Some(JsonV::Int(index as int))
    &&& m.payload.get("id"@) == Some(JsonV::Str(id))
    &&& m.payload.get("function"@) matches Some(f) && f.get("name"@) == Some(JsonV::Str(name))
        && f.get("arguments"@) == Some(JsonV::Str(args))
}

/// The progress of a tool call is told on the stream, piece by piece.
pub proof fn lemma_calls_are_told(r: RunV, e: EventV)
    ensures
        ({
            let v = r.event(e);
            let t = r.link.stream_topic;
            match e {
                EventV::ToolInputStart { index, id, name } => v.out == r.out.push(v.out.last())
                    && tells_of_call(v.out.last(), t, index, id, name, Seq::empty()),
                EventV::ToolInputDelta { index, id, name, text } => v.out == r.out.push(
                    v.out.last(),
                ) && tells_of_call(v.out.last(), t, index, id, name, text),
                EventV::ToolInputEnd { index, id, name, input } => v.out == r.out.push(
                    v.out.last(),
                ) && tells_of_call(v.out.last(), t, index, id, name, input),
                _ => true,
            }
        }),
{
    reveal_strlit("");
    assert(""@ =~= Seq::empty());
    let v = r.event(e);
    match e {
        EventV::ToolInputStart { index, id, name } => {
            lemma_told(r.link, index, id, name, ""@);
            assert(v.out =~= r.out.push(v.out.last()));
        },
        EventV::ToolInputDelta { index, id, name, text } => {
            lemma_told(r.link, index, id, name, text);
            assert(v.out =~= r.out.push(v.out.last()));
        },
        EventV::ToolInputEnd { index, id, name, input } => {
            lemma_told(r.link, index, id, name, input);
            assert(v.out =~= r.out.push(v.out.last()));
        },
        _ => {},
    }
}

proof fn lemma_told(l: LinkV, index: usize, id: Seq<char>, name: Seq<char>, args: Seq<char>)
    ensures
        tells_of_call(
            l.tool_progress(index, id, name, args),
            l.stream_topic,
            index,
            id,
            name,
            args,
        ),
{
    reveal_strlit("index");
    reveal_strlit("id");
    reveal_strlit("function");
    reveal_strlit("name");
    reveal_strlit("arguments");
    let m = l.tool_progress(index, id, name, args);
    let o = m.payload->Object_0;
    assert(o[0].0.len() == 5 && o[1].0.len() == 2 && o[2].0.len() == 8);
    lemma_get_entry(o, 0);
    lemma_get_entry(o, 1);
    lemma_get_entry(o, 2);
    let f = o[2].1->Object_0;
    assert(f[0].0.len() == 4 && f[1].0.len() == 9);
    lemma_get_entry(f, 0);
    lemma_get_entry(f, 1);
    let bare = MessageV::new(l.stream_topic, l.source, m.payload);
    lemma_metadata_reads_back(bare, "LlmToolCall"@, l.stream_id, 0);
    lemma_metadata_reads_back(bare.with_type("LlmToolCall"@), "LlmToolCall"@, l.stream_id, 0);
    assert(m.meta_type() == Some("LlmToolCall"@));
}

/// A stream closes with a mark of its end on its own topic, and with its statistics, the usage
/// that the model reported among them, on theirs.
pub proof fn lemma_stream_is_closed(r: RunV)
    requires
        0 <= r.rx_chars <= usize::MAX,
    ensures
        ({
            let v = r.closed();
            let n = r.out.len() as int;
            &&& v == (RunV { out: v.out, ..r })
            &&& v.out.len() == n + 2 && v.out.take(n) == r.out
            &&& v.out[n].topic == r.link.stream_topic && v.out[n].meta.get("type"@) == Some(
                JsonV::Str("LlmStreamEnd"@),
            )
            &&& v.out[n + 1].topic == r.link.stats_topic && v.out[n + 1].meta.get("type"@) == Some(
                JsonV::Str("StreamStats"@),
            )
            &&& v.out[n + 1].payload.get("rx_chars"@) == Some(JsonV::Int(r.rx_chars))
            &&& v.out[n + 1].payload.get("context_window"@) == Some(
                match r.link.context_window {
                    Some(w) => JsonV::Int(w as int),
                    None => JsonV::Null,
                },
            )
            &&& v.out[n + 1].payload.get("usage"@) matches Some(u) && match r.state.usage {
                Some(w) => reports(u, w),
                None => u == JsonV::Null,
            }
        }),
{
    let v = r.closed();
    let n = r.out.len() as int;
    assert(v.out.take(n) =~= r.out);
    let l = r.link;
    let e = MessageV::new(l.stream_topic, l.source, v.out[n].payload);
    lemma_metadata_reads_back(e, "LlmStreamEnd"@, l.stream_id, 0);
    lemma_metadata_reads_back(e.with_type("LlmStreamEnd"@), "LlmStreamEnd"@, l.stream_id, 0);
    assert(v.out[n].meta_type() == Some("LlmStreamEnd"@));
    let s = MessageV::new(l.stats_topic, l.source, v.out[n + 1].payload);
    lemma_metadata_reads_back(s, "StreamStats"@, l.stream_id, 0);
    lemma_metadata_reads_back(s.with_type("StreamStats"@), "StreamStats"@, l.stream_id, 0);
    assert(v.out[n + 1].meta_type() == Some("StreamStats"@));
    reveal_strlit("rx_chars");
    reveal_strlit("usage");
    reveal_strlit("context_window");
    let o = s.payload->Object_0;
    assert(o[0].0.len() == 8 && o[1].0.len() == 5 && o[2].0.len() == 14);
    lemma_get_entry(o, 0);
    lemma_get_entry(o, 1);
    lemma_get_entry(o, 2);
    if let Some(w) = r.state.usage {
        lemma_usage_reported(w);
    }
}

/// A count as it is reported.
pub open spec fn counted_as(n: Option<u64>) -> JsonV {
    match n {
        Some(n) => JsonV::Int(n as int),
        None => JsonV::Null,
    }
}

/// Whether a value reports the usage, each count under its own name.
pub open spec fn reports(v: JsonV, u: Usage) -> bool {
    &&& v.get("input_tokens"@) == Some(counted_as(u.input_tokens))
    &&& v.get("output_tokens"@) == Some(counted_as(u.output_tokens))
    &&& v.get("total_tokens"@) == Some(counted_as(u.total_tokens))
    &&& v.get("reasoning_tokens"@) == Some(counted_as(u.reasoning_tokens))
}

proof fn lemma_usage_reported(u: Usage)
    ensures
        reports(usage_json(u), u),
{
    reveal_strlit("input_tokens");
    reveal_strlit("output_tokens");
    reveal_strlit("total_tokens");
    reveal_strlit("reasoning_tokens");
    let o = usage_json(u)->Object_0;
    assert(o[0].0.len() == 12 && o[1].0.len() == 13 && o[2].0.len() == 12 && o[3].0.len() == 16);
    assert(o[0].0[0] == 'i' && o[2].0[0] == 't');
    assert(keys_once(o));
    lemma_get_entry(o, 0);
    lemma_get_entry(o, 1);
    lemma_get_entry(o, 2);
    lemma_get_entry(o, 3);
}

/// The usage that an agent reads from statistics is the one that the stream wrote there.
pub proof fn lemma_usage_reads_back(s: StreamStats)
    requires
        s.usage is Some,
    ensures
        crate::agent_events::usage_of(stats_json(s)) == s.usage.unwrap(),
{
    let u = s.usage.unwrap();
    lemma_usage_reported(u);
    reveal_strlit("rx_chars");
    reveal_strlit("usage");
    reveal_strlit("context_window");
    let o = stats_json(s)->Object_0;
    assert(o[0].0.len() == 8 && o[1].0.len() == 5 && o[2].0.len() == 14);
    lemma_get_entry(o, 1);
}

/// The names that are offered are those of the tools.
pub proof fn lemma_offered(tools: Seq<JsonV>, name: Seq<char>, n: int)
    requires
        0 <= n <= tools.len(),
    ensures
        names_of(tools, n).contains(name) <==> exists|i: int|
            0 <= i < n && ((#[trigger] tools[i]).get("function"@) matches Some(f) && f.get("name"@)
                == Some(JsonV::Str(name))),
    decreases n,
{
    if n > 0 {
        lemma_offered(tools, name, n - 1);
        let t = tools[n - 1];
        assert(t.at("function"@).str_at("name"@) == Some(name) <==> (t.get(
            "function"@,
        ) matches Some(f) && f.get("name"@) == Some(JsonV::Str(name))));
        if names_of(tools, n).contains(name) && !names_of(tools, n - 1).contains(name) {
            let i = n - 1;
            assert(tools[i].get("function"@) is Some);
        }
    }
}

/// Where no tool call came as such and the model wrote one into its text, that one counts, and
/// the turn is an ordinary one; where it wrote none there, one in its reasoning does.
pub proof fn lemma_written_calls_count(r: RunV, tools: Seq<JsonV>)
    requires
        r.state.tool_calls.len() == 0,
    ensures
        ({
            let known = offered_names(tools);
            let (said, thought) = (
                rescued_calls(r.full, known),
                rescued_calls(r.reasoning, known),
            );
            let (calls, signal) = r.rescue(Some(tools));
            &&& said.len() > 0 ==> calls == said && signal == StreamSignal::Normal
            &&& said.len() == 0 && thought.len() > 0 ==> calls == thought && signal
                == StreamSignal::Normal
            &&& said.len() == 0 && thought.len() == 0 ==> calls.len() == 0 && signal == r.signal
            &&& r.rescue(None) == (r.state.tool_calls, r.signal)
        }),
{
}

/// A turn is reported as what it said; one that went in circles, with what it thought as well.
pub proof fn lemma_turn_is_reported(r: RunV, signal: StreamSignal)
    ensures
        signal != StreamSignal::StuckLoop || r.reasoning.len() == 0 ==> r.report(signal) == r.full,
        signal == StreamSignal::StuckLoop && r.reasoning.len() > 0 ==> (exists|a: Seq<char>|
            r.report(signal) == #[trigger] (a + r.reasoning)) && (r.full.len() > 0
            ==> r.report(signal) == "[output]\n"@ + r.full + "\n\n[reasoning]\n"@ + r.reasoning),
{
    if signal == StreamSignal::StuckLoop && r.reasoning.len() > 0 {
        let a = if r.full.len() == 0 {
            "[reasoning]\n"@
        } else {
            "[output]\n"@ + r.full + "\n\n[reasoning]\n"@
        };
        assert(r.report(signal) == a + r.reasoning);
    }
}

/// A new stream is watched in windows of 5000 characters, from 10000 on and up to 20000, unless
/// it is told otherwise, and nothing is held against it yet.
pub proof fn lemma_new_detector(window: usize, most: usize)
    ensures
        ({
            let d = fresh_detector(window, most);
            &&& d.cycle_window == if window == 0 {
                5000
            } else {
                window as int
            }
            &&& d.max_total_chars == if most == 0 {
                20000
            } else {
                most as int
            }
            &&& d.min_total_chars == 10000
            &&& d.cycle_streak_limit == 2 && d.cycle_streak == 0
            &&& 100 * d.cycle_threshold.num == 55 * d.cycle_threshold.den
                && d.cycle_threshold.den > 0
            &&& d.fed_chars == 0 && d.buffer.len() == 0 && d.last_check_fed == 0
            &&& d.last_reason is None
        }),
{
}

// ---- what the actor reports

/// A response with tool calls is reported by them, one for each and repaired; one without by its
/// text, and by what kept the model from ending it.
pub proof fn lemma_outcome(a: &LlmActor, o: OutcomeV)
    ensures
        ({
            let m = a.outcome(o);
            if o.tool_calls.len() > 0 {
                &&& m.topic == a.tool_calls_topic@
                &&& m.payload matches JsonV::Array(calls) && calls.len() == o.tool_calls.len()
                    && forall|i: int|
                    0 <= i < calls.len() ==> #[trigger] calls[i]
                        == crate::args_fixer::repaired_call(o.tool_calls[i])
                &&& m.meta.get("type"@) == Some(JsonV::Str("LlmToolCalls"@))
            } else {
                &&& m.topic == a.output_topic@
                &&& m.payload == JsonV::Str(o.payload)
                &&& match o.signal {
                    StreamSignal::Normal => m.meta.get("type"@) is None,
                    StreamSignal::Idle => m.meta.get("type"@) == Some(
                        JsonV::Str("LlmIdleTimeout"@),
                    ),
                    StreamSignal::StuckLoop => m.meta.get("type"@) == Some(
                        JsonV::Str("LlmStuckLoop"@),
                    ),
                }
            }
        }),
{
    let m = a.outcome(o);
    let bare = MessageV { meta: JsonV::Null, ..m };
    lemma_metadata_reads_back(bare, "LlmToolCalls"@, Seq::empty(), 0);
    lemma_metadata_reads_back(bare, "LlmIdleTimeout"@, Seq::empty(), 0);
    lemma_metadata_reads_back(bare, "LlmStuckLoop"@, Seq::empty(), 0);
}

/// A failed request is reported as an error, in its own words.
pub proof fn lemma_failure(a: &LlmActor, e: Seq<char>)
    ensures
        a.failure(e).topic == a.output_topic@,
        a.failure(e).payload == JsonV::Str("Error: "@ + e),
        a.failure(e).meta.get("type"@) == Some(JsonV::Str("LlmError"@)),
{
    let m = a.failure(e);
    let bare = MessageV { meta: JsonV::Null, ..m };
    lemma_metadata_reads_back(bare, "LlmError"@, Seq::empty(), 0);
}

/// An interrupt is what says that it is one; its reason is the one that it gives.
pub proof fn lemma_interrupts(p: JsonV)
    ensures
        interrupt_reason(p) is Some <==> p.get("type"@) == Some(JsonV::Str("interrupt"@)),
        interrupt_reason(p) matches Some(r) ==> match p.get("reason"@) {
            Some(JsonV::Str(s)) => r == s,
            _ => r == "interrupted"@,
        },
{
}

// ---- what is asked

/// A request asks the configured model with its own messages, tools and grammar; one that brings
/// only a prompt asks it as the user.
pub proof fn lemma_request(r: LlmRequestV, config: LlmConfigV)
    ensures
        ({
            let c = canonical_of(r);
            &&& r.messages matches Some(ms) ==> c.messages == ms
            &&& r.messages is None ==> c.messages.len() == 1 && c.messages[0].get("role"@) == Some(
                JsonV::Str("user"@),
            ) && c.messages[0].get("content"@) == Some(JsonV::Str(r.prompt))
            &&& c.tools == r.tools && c.grammar == r.grammar && c.stream
            &&& r.config matches Some(g) ==> c.model == g.model && c.temperature == Some(
                g.temperature,
            ) && c.max_tokens == Some(g.max_tokens)
        }),
        ({
            let c = canonical_for(config, effective_messages(r), r.tools, r.grammar);
            &&& c.model == config.model && c.messages == effective_messages(r)
            &&& c.tools == r.tools && c.grammar == r.grammar && c.stream
            &&& c.temperature == Some(config.temperature)
            &&& c.max_tokens == Some(config.max_tokens)
        }),
{
    lemma_user_says(r.prompt);
}

proof fn lemma_user_says(t: Seq<char>)
    ensures
        ({
            let m = crate::json::obj2_v(
                "role"@,
                JsonV::Str("user"@),
                "content"@,
                JsonV::Str(t),
            );
            m.get("role"@) == Some(JsonV::Str("user"@)) && m.get("content"@) == Some(JsonV::Str(t))
        }),
{
    reveal_strlit("role");
    reveal_strlit("content");
    let m = crate::json::obj2_v("role"@, JsonV::Str("user"@), "content"@, JsonV::Str(t));
    let o = m->Object_0;
    assert(o[0].0.len() == 4 && o[1].0.len() == 7);
    lemma_get_entry(o, 0);
    lemma_get_entry(o, 1);
}

/// A single question is asked as the user's only message, without tools.
pub proof fn lemma_question(config: LlmConfigV, instruction: Seq<char>)
    ensures
        ({
            let c = question(config, instruction);
            &&& c.messages.len() == 1
            &&& c.messages[0].get("role"@) == Some(JsonV::Str("user"@))
            &&& c.messages[0].get("content"@) == Some(JsonV::Str(instruction))
            &&& c.model == config.model && c.tools is None && c.grammar is None
            &&& c.temperature == Some(config.temperature)
            &&& c.max_tokens == Some(config.max_tokens)
        }),
{
    lemma_user_says(instruction);
}

/// The answer to a single question is the text of all payloads; one that is no JSON is passed
/// over.
pub proof fn lemma_answer_grows<P: Protocol>(o: OneShotV, p: &P, payload: Seq<char>)
    ensures
        match json_parse(payload) {
            Some(v) => o.payload(p, payload).text == o.text + text_of(p.events_in(v, o.state)),
            None => o.payload(p, payload) == o,
        },
{
}

/// A request goes to the chat endpoint below the base URL, whatever slashes that ends in, with
/// the key of the configuration.
pub proof fn lemma_where_it_goes(
    p: PreparedRequest,
    config: LlmConfigV,
    c: CanonicalV,
    host: Seq<char>,
    n: nat,
)
    requires
        host.len() > 0,
        host.last() != '/',
        config.base_url == host + Seq::new(n, |i: int| '/'),
        is_sent_as(p, config, c),
    ensures
        p.url@ == host + "/chat/completions"@,
        headers(p.headers@).contains(("Authorization"@, "Bearer "@ + config.api_key)),
{
    lemma_slashes(host, n);
    reveal_strlit("/chat/completions");
    reveal_strlit("/");
    assert("/chat/completions"@.subrange(0, 1) =~= "/"@);
    assert(headers(p.headers@)[1] == ("Authorization"@, "Bearer "@ + config.api_key));
}

/// The slashes at the end of a text go, and nothing else.
pub proof fn lemma_slashes(host: Seq<char>, n: nat)
    requires
        host.len() > 0,
        host.last() != '/',
    ensures
        without_slashes(host + Seq::new(n, |i: int| '/')) == host,
    decreases n,
{
    let s = host + Seq::new(n, |i: int| '/');
    if n > 0 {
        lemma_slashes(host, (n - 1) as nat);
        assert(s.drop_last() =~= host + Seq::new((n - 1) as nat, |i: int| '/'));
    } else {
        assert(s =~= host);
    }
}

/// A path begins with exactly one slash of its own.
pub proof fn lemma_rooted(path: Seq<char>)
    requires
        path.len() == 0 || path[0] != '/',
    ensures
        rooted(path) == seq!['/'] + path,
        rooted(seq!['/'] + path) == seq!['/'] + path,
{
    reveal_strlit("/");
    assert("/"@ =~= seq!['/']);
    if path.len() > 0 {
        assert(path.subrange(0, 1)[0] == path[0]);
    }
    assert((seq!['/'] + path).subrange(0, 1) =~= "/"@);
}

/// What a request sets goes over what is configured; what it leaves empty or zero does not.
pub proof fn lemma_merging(base: LlmConfigV, req: LlmConfigV)
    ensures
        ({
            let c = effective_config(base, Some(req));
            &&& effective_config(base, None) == base
            &&& c.model == if req.model.len() > 0 {
                req.model
            } else {
                base.model
            }
            &&& c.base_url == if req.base_url.len() > 0 {
                req.base_url
            } else {
                base.base_url
            }
            &&& c.api_key == if req.api_key.len() > 0 {
                req.api_key
            } else {
                base.api_key
            }
            &&& c.temperature == req.temperature
            &&& req.max_tokens != 0 ==> c.max_tokens == req.max_tokens
            &&& req.max_tokens == 0 ==> c.max_tokens == base.max_tokens
            &&& req.request_timeout_secs > 0 ==> c.request_timeout_secs == req.request_timeout_secs
            &&& req.request_timeout_secs == 0 ==> c.request_timeout_secs
                == base.request_timeout_secs
            &&& req.stream_timeout_secs > 0 ==> c.stream_timeout_secs == req.stream_timeout_secs
            &&& req.stream_timeout_secs == 0 ==> c.stream_timeout_secs == base.stream_timeout_secs
            &&& req.max_retries > 0 ==> c.max_retries == req.max_retries
            &&& req.max_retries == 0 ==> c.max_retries == base.max_retries
            &&& req.retry_base_delay_ms > 0 ==> c.retry_base_delay_ms == req.retry_base_delay_ms
            &&& req.retry_base_delay_ms == 0 ==> c.retry_base_delay_ms == base.retry_base_delay_ms
            &&& req.context_window is Some ==> c.context_window == req.context_window
            &&& req.context_window is None ==> c.context_window == base.context_window
            &&& req.loop_cycle_window > 0 ==> c.loop_cycle_window == req.loop_cycle_window
            &&& req.loop_cycle_window == 0 ==> c.loop_cycle_window == base.loop_cycle_window
            &&& req.loop_max_total_chars > 0 ==> c.loop_max_total_chars == req.loop_max_total_chars
            &&& req.loop_max_total_chars == 0 ==> c.loop_max_total_chars
                == base.loop_max_total_chars
        }),
{
}

/// A failure may pass where too much was asked, the server failed, the connection says so or
/// nothing came in time; what is reported of it tells the same, and keeps what the server said.
pub proof fn lemma_failures(f: AttemptFailure, secs: u64)
    ensures
        f matches AttemptFailure::Status { status, body } ==> (may_pass(f) <==> status == 429 || 500
            <= status) && reported(f, secs) == (LlmError::Api { status, body }) && reported(
            f,
            secs,
        ).retryable() == may_pass(f),
        f matches AttemptFailure::Transport { message, retryable } ==> may_pass(f) == retryable
            && reported(f, secs) == LlmError::Network(message),
        f is TimedOut ==> may_pass(f) && reported(f, secs) == LlmError::Timeout(secs) && reported(
            f,
            secs,
        ).retryable(),
{
}

/// Each repetition waits twice as long as the one before.
pub proof fn lemma_waits_double(r: Retries)
    requires
        r.attempt < u32::MAX,
    ensures
        r.next().attempt == r.attempt + 1,
        2 * r.delay_ms <= u64::MAX ==> r.next().delay_ms == 2 * r.delay_ms,
        2 * r.delay_ms > u64::MAX ==> r.next().delay_ms == u64::MAX,
        r.next().max_retries == r.max_retries && r.next().timeout_secs == r.timeout_secs,
{
}

// ---- what comes back

/// A line of data brings what stands behind its mark, and what follows brings the rest; the mark
/// of the end and every other line bring nothing.
pub proof fn lemma_data_lines(x: Seq<char>, rest: Seq<char>)
    requires
        !x.contains('\n'),
        x.len() > 0,
        x.last() != '\r',
    ensures
        x != "[DONE]"@ ==> payloads("data: "@ + x + seq!['\n'] + rest) == seq![x] + payloads(rest),
        x == "[DONE]"@ ==> payloads("data: "@ + x + seq!['\n'] + rest) == payloads(rest),
        !starts_with(x, "data: "@) ==> payloads(x + seq!['\n'] + rest) == payloads(rest),
{
    reveal_strlit("data: ");
    let d = "data: "@;
    let line = d + x;
    assert(d.len() == 6);
    assert(!line.contains('\n')) by {
        if line.contains('\n') {
            let i = choose|i: int| 0 <= i < line.len() && line[i] == '\n';
            if i >= 6 {
                assert(x[i - 6] == '\n');
            }
        }
    }
    let none = Seq::<char>::empty();
    lemma_first_line(line, none);
    lemma_first_line(x, none);
    assert(lines_from(none, 0) =~= Seq::empty());
    let a = line + seq!['\n'];
    let b = x + seq!['\n'];
    assert(line + seq!['\n'] + none =~= a);
    assert(x + seq!['\n'] + none =~= b);
    assert(lines_from(a, 0) =~= seq![line]);
    assert(lines_from(b, 0) =~= seq![x]);
    reveal_with_fuel(data_of, 2);
    assert(line.subrange(0, 6) =~= d);
    assert(line.skip(6) =~= x);
    assert(seq![line][0] == line && seq![x][0] == x);
    if x != "[DONE]"@ {
        assert(payloads(a) =~= seq![x]);
    } else {
        assert(payloads(a) =~= Seq::empty());
    }
    if !starts_with(x, d) {
        assert(payloads(b) =~= Seq::empty());
        assert(Seq::<Seq<char>>::empty() + payloads(rest) =~= payloads(rest));
    }
    lemma_pieces_join(a, rest);
    lemma_pieces_join(b, rest);
    assert(Seq::<Seq<char>>::empty() + payloads(rest) =~= payloads(rest));
}

/// A response keeps every event, adds the tool calls that came, in their order, and ends for the
/// reason that came last.
pub proof fn lemma_response_grows(r: ResponseV, e: EventV)
    ensures
        ({
            let v = r.reduce(e);
            &&& v.events == r.events.push(e)
            &&& match e {
                EventV::TextDelta { text, .. } => v == (ResponseV {
                    text: r.text + text,
                    events: v.events,
                    ..r
                }),
                EventV::ReasoningDelta { text, .. } => v == (ResponseV {
                    reasoning: r.reasoning + text,
                    events: v.events,
                    ..r
                }),
                EventV::ToolCall { id, name, input } => v == (ResponseV {
                    tool_calls: v.tool_calls,
                    events: v.events,
                    ..r
                }) && v.tool_calls == r.tool_calls.push(v.tool_calls.last())
                    && v.tool_calls.last().get("id"@) == Some(JsonV::Str(id))
                    && v.tool_calls.last().get("name"@) == Some(JsonV::Str(name))
                    && v.tool_calls.last().get("input"@) == Some(input),
                EventV::Finish { reason, usage } => v == (ResponseV {
                    finish_reason: Some(reason),
                    usage,
                    events: v.events,
                    ..r
                }),
                _ => v == (ResponseV { events: v.events, ..r }),
            }
        }),
{
    if let EventV::ToolCall { id, name, input } = e {
        let v = r.reduce(e);
        reveal_strlit("id");
        reveal_strlit("name");
        reveal_strlit("input");
        let o = v.tool_calls.last()->Object_0;
        assert(o[0].0.len() == 2 && o[1].0.len() == 4 && o[2].0.len() == 5);
        lemma_get_entry(o, 0);
        lemma_get_entry(o, 1);
        lemma_get_entry(o, 2);
        assert(v.tool_calls =~= r.tool_calls.push(v.tool_calls.last()));
    }
}

/// A structured result is what the first call of its tool was given.
pub proof fn lemma_structured_result(es: Seq<EventV>, i: int)
    requires
        0 <= i,
    ensures
        object_from(es, i) is None ==> forall|k: int|
            i <= k < es.len() ==> !((#[trigger] es[k]) matches EventV::ToolCall { name, .. } && name
                == "generate_object"@),
        object_from(es, i) matches Some(v) ==> exists|k: int|
            i <= k < es.len() && ((#[trigger] es[k]) matches EventV::ToolCall { name, input, .. }
                && name == "generate_object"@ && input == v) && forall|j: int|
                i <= j < k ==> !((#[trigger] es[j]) matches EventV::ToolCall { name, .. } && name
                    == "generate_object"@),
    decreases es.len() - i,
{
    if i < es.len() {
        let here = es[i] matches EventV::ToolCall { name, .. } && name == "generate_object"@;
        if here {
            let k = i;
            assert(es[k] is ToolCall);
        } else {
            lemma_structured_result(es, i + 1);
            if let Some(v) = object_from(es, i + 1) {
                let k = choose|k: int|
                    i + 1 <= k < es.len() && ((#[trigger] es[k]) matches EventV::ToolCall {
                        name,
                        input,
                        ..
                    } && name == "generate_object"@ && input == v) && forall|j: int|
                        i + 1 <= j < k ==> !((#[trigger] es[j]) matches EventV::ToolCall {
                            name,
                            ..
                        } && name == "generate_object"@);
                assert(es[k] is ToolCall);
            }
        }
    }
}

// ---- context windows

/// A key names a context window where it speaks of a context and of its length, window or size,
/// in any case.
pub proof fn lemma_window_names(k: Seq<char>)
    ensures
        names_window(k) <==> contains(lowercase(k), "context"@) && (contains(
            lowercase(k),
            "length"@,
        ) || contains(lowercase(k), "window"@) || contains(lowercase(k), "size"@)),
{
}

/// A window is believed where it is a positive number of no more than two million.
pub proof fn lemma_believable_windows(k: Seq<char>, n: int)
    requires
        0 <= n <= u64::MAX,
    ensures
        own_window(k, JsonV::Int(n)) is Some <==> names_window(k) && 1 <= n <= 2_000_000,
        own_window(k, JsonV::Int(n)) matches Some(w) ==> w == n,
{
}

/// In a list of models the one that is asked for counts, and the first where it is not listed or
/// states no window.
pub proof fn lemma_listed_models(a: Seq<JsonV>, model: Seq<char>, k: int)
    requires
        0 <= k < a.len(),
        a[k].get("id"@) == Some(JsonV::Str(model)),
        forall|j: int| 0 <= j < k ==> (#[trigger] a[j]).get("id"@) != Some(JsonV::Str(model)),
    ensures
        stated_window(a[k]) is Some ==> listed_window(a, model) == stated_window(a[k]),
        stated_window(a[k]) is None ==> listed_window(a, model) == stated_window(a[0]),
{
    lemma_model_found(a, model, 0, k);
}

proof fn lemma_model_found(a: Seq<JsonV>, model: Seq<char>, i: int, k: int)
    requires
        0 <= i <= k < a.len(),
        a[k].get("id"@) == Some(JsonV::Str(model)),
        forall|j: int| 0 <= j < k ==> (#[trigger] a[j]).get("id"@) != Some(JsonV::Str(model)),
    ensures
        model_from(a, model, i) == Some(k),
    decreases k - i,
{
    if i < k {
        lemma_model_found(a, model, i + 1, k);
    }
}

// ---- shares

/// Shares are held against each other as parts of a whole: one is at least another where it is no
/// smaller a part.
pub proof fn lemma_shares(a: Ratio, b: Ratio)
    requires
        a.den > 0,
        b.den > 0,
    ensures
        a.den == b.den ==> (a.at_least(b) <==> a.num >= b.num),
        a.num == b.num && a.num > 0 ==> (a.at_least(b) <==> a.den <= b.den),
        a.at_least(b) || b.at_least(a),
{
    let (n, m, d, e) = (a.num as int, b.num as int, a.den as int, b.den as int);
    if d == e {
        assert(n * d >= m * d <==> n >= m) by (nonlinear_arith)
            requires
                d > 0,
        ;
    }
    if n == m && n > 0 {
        assert(n * e >= n * d <==> d <= e) by (nonlinear_arith)
            requires
                n > 0,
        ;
    }
}

// ---- settings on the wire

/// Settings travel whole, each under its own name.
pub proof fn lemma_settings_are_sent(c: LlmConfigV)
    ensures
        ({
            let v = config_json(c);
            &&& v.get("model"@) == Some(JsonV::Str(c.model))
            &&& v.get("base_url"@) == Some(JsonV::Str(c.base_url))
            &&& v.get("api_key"@) == Some(JsonV::Str(c.api_key))
            &&& v.get("temperature"@) == Some(JsonV::Float(c.temperature))
            &&& v.get("max_tokens"@) == Some(JsonV::Int(c.max_tokens as int))
            &&& v.get("request_timeout_secs"@) == Some(JsonV::Int(c.request_timeout_secs as int))
            &&& v.get("stream_timeout_secs"@) == Some(JsonV::Int(c.stream_timeout_secs as int))
            &&& v.get("max_retries"@) == Some(JsonV::Int(c.max_retries as int))
            &&& v.get("retry_base_delay_ms"@) == Some(JsonV::Int(c.retry_base_delay_ms as int))
            &&& v.get("loop_cycle_window"@) == Some(JsonV::Int(c.loop_cycle_window as int))
            &&& v.get("loop_max_total_chars"@) == Some(JsonV::Int(c.loop_max_total_chars as int))
            &&& v.get("context_window"@) == Some(
                match c.context_window {
                    Some(w) => JsonV::Int(w as int),
                    None => JsonV::Null,
                },
            )
        }),
{
    reveal_strlit("model");
    reveal_strlit("base_url");
    reveal_strlit("api_key");
    reveal_strlit("temperature");
    reveal_strlit("max_tokens");
    reveal_strlit("request_timeout_secs");
    reveal_strlit("stream_timeout_secs");
    reveal_strlit("max_retries");
    reveal_strlit("retry_base_delay_ms");
    reveal_strlit("context_window");
    reveal_strlit("loop_cycle_window");
    reveal_strlit("loop_max_total_chars");
    let o = config_json(c)->Object_0;
    assert(o[0].0.len() == 5 && o[1].0.len() == 8 && o[2].0.len() == 7 && o[3].0.len() == 11);
    assert(o[4].0.len() == 10 && o[5].0.len() == 20 && o[6].0.len() == 19 && o[7].0.len() == 11);
    assert(o[8].0.len() == 19 && o[9].0.len() == 14 && o[10].0.len() == 17 && o[11].0.len() == 20);
    assert(o[3].0[0] == 't' && o[7].0[0] == 'm' && o[5].0[0] == 'r' && o[11].0[0] == 'l');
    assert(o[6].0[0] == 's' && o[8].0[0] == 'r');
    assert(keys_once(o));
    lemma_get_entry(o, 0);
    lemma_get_entry(o, 1);
    lemma_get_entry(o, 2);
    lemma_get_entry(o, 3);
    lemma_get_entry(o, 4);
    lemma_get_entry(o, 5);
    lemma_get_entry(o, 6);
    lemma_get_entry(o, 7);
    lemma_get_entry(o, 8);
    lemma_get_entry(o, 9);
    lemma_get_entry(o, 10);
    lemma_get_entry(o, 11);
}

// ---- the chat protocol

/// The protocol writes the request as it is asked for, and reads what a chunk carries: its text,
/// its reasoning, and the pieces of tool calls.
pub proof fn lemma_protocol(p: &OpenAIChatProtocol, r: CanonicalV, raw: JsonV, s: StreamStateV)
    ensures
        p.body_of(r).get("model"@) == Some(JsonV::Str(r.model)),
        p.body_of(r).get("messages"@) == Some(JsonV::Array(r.messages)),
        text_of(p.events_in(raw, s)) == match delta_in(raw) {
            Some(d) => text_at(d, "content"@),
            None => Seq::empty(),
        },
        reasoning_of(p.events_in(raw, s)) == match delta_in(raw) {
            Some(d) => text_at(d, "reasoning_content"@),
            None => Seq::empty(),
        },
        match deltas_in(raw) {
            Some(a) => p.state_after(raw, s).tools == fed(s.tools, pieces_in(a)),
            None => p.state_after(raw, s).tools == s.tools,
        },
{
    lemma_body_carries_request(r);
    lemma_chunk_is_passed_on(raw, s);
    lemma_chunk_feeds_calls(raw, s);
}

/// A prepared request carries what was asked for.
pub proof fn lemma_what_goes(p: PreparedRequest, config: LlmConfigV, c: CanonicalV)
    requires
        is_sent_as(p, config, c),
    ensures
        p.body@.get("model"@) == Some(JsonV::Str(c.model)),
        p.body@.get("messages"@) == Some(JsonV::Array(c.messages)),
        c.tools matches Some(t) ==> p.body@.get("tools"@) == Some(JsonV::Array(t)),
        headers(p.headers@).contains(("Content-Type"@, "application/json"@)),
{
    lemma_body_carries_request(c);
    assert(headers(p.headers@)[0] == ("Content-Type"@, "application/json"@));
}

/// A reply that describes one model is read as its description, one that lists models as a list,
/// under `data` or bare.
pub proof fn lemma_replies(root: JsonV, model: Seq<char>)
    ensures
        root.get("data"@) matches Some(JsonV::Array(a)) ==> replied_window(root, model)
            == listed_window(a, model),
        root matches JsonV::Array(a) ==> replied_window(root, model) == listed_window(a, model),
        root.get("data"@) is None && root.get("id"@) is Some ==> replied_window(root, model)
            == stated_window(root),
        listed_window(Seq::empty(), model) is None,
        crate::llm_stream::IDLE_TIMEOUT_MS == 90_000,
{
}

/// An error that may pass is one of the network, of time or of a stream that did not begin, or one
/// that the server means to be passing; each is told with what is known of it.
pub proof fn lemma_errors_are_told(e: LlmError)
    ensures
        e is Network || e is Timeout || e is Stream ==> e.retryable(),
        e is StreamInterrupted || e is Other ==> !e.retryable(),
        e matches LlmError::Api { status, body } ==> (e.retryable() <==> status == 429 || status
            >= 500) && e.words() == "API error "@ + dec(status as int) + ": "@ + body@,
        e matches LlmError::Network(w) ==> e.words() == "Network error: "@ + w@,
        e matches LlmError::Timeout(n) ==> e.words() == "Request timeout after "@ + dec(n as int)
            + " seconds"@,
        e matches LlmError::Stream(w) ==> e.words() == "Stream error: "@ + w@,
        e matches LlmError::StreamInterrupted(n, w) ==> e.words()
            == "Stream interrupted: partial response ("@ + dec(n as int) + " chars), last error: "@
            + w@,
        e matches LlmError::Other(w) ==> e.words() == "Other: "@ + w@,
{
}

} // verus!
