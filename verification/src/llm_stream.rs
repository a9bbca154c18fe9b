//! A response of the model while it streams in: what is passed on, what is kept, and when
//! the stream is given up.

use crate::bytes::{byte_count, byte_len, byte_prefix};
use crate::event::{events, stats_json, EventV, LlmEvent, StreamStats, Usage};
use crate::framing::{decode_sse_chunk, payloads, utf8_lossy};
use crate::json::{json_parse, jsons, obj1, obj1_v, obj2, obj2_v, obj3, obj3_v, Json, JsonV};
use crate::llm_error::LlmError;
use crate::loop_detector::{count_up, counted, DetectorV, LoopDetector};
use crate::message::{Message, MessageV};
use crate::openai_chat::{Protocol, StreamState, StreamStateV};
use crate::string_set::StringSet;
use crate::text::{owned, texts, to_chars};
use crate::tool_call_rescue::{extract_tool_calls, rescued_calls};
use vstd::prelude::*;

verus! {

/// How a stream ended, beyond what it brought.
#[derive(Clone, Copy, Debug, PartialEq, Eq, Structural)]
pub enum StreamSignal {
    /// It came to its end.
    Normal,
    /// Nothing came any more.
    Idle,
    /// The model repeated itself, or did not stop.
    StuckLoop,
}

impl Default for StreamSignal {
    fn default() -> (r: StreamSignal)
        ensures
            r == StreamSignal::Normal,
    {
        StreamSignal::Normal
    }
}

/// Milliseconds without a sign of life after which a stream counts as idle.
pub const IDLE_TIMEOUT_MS: u64 = 90_000;

/// How long to wait for the next piece, in milliseconds: no longer than the timeout of the
/// stream, and no longer than until the stream counts as idle, but at least one.
pub fn chunk_timeout_ms(stream_timeout_secs: u64, since_last_ms: u64) -> (r: u64)
    ensures
        ({
            let left = if since_last_ms + 1 <= IDLE_TIMEOUT_MS {
                IDLE_TIMEOUT_MS - since_last_ms
            } else {
                1
            };
            r == if stream_timeout_secs * 1000 < left {
                stream_timeout_secs * 1000
            } else {
                left
            }
        }),
{
    let left: u64 = if since_last_ms < IDLE_TIMEOUT_MS {
        IDLE_TIMEOUT_MS - since_last_ms
    } else {
        1
    };
    if (stream_timeout_secs as u128 * 1000) < left as u128 {
        stream_timeout_secs * 1000
    } else {
        left
    }
}

/// The models of the messages of `s`.
pub open spec fn messages(s: Seq<Message>) -> Seq<MessageV> {
    s.map_values(|m: Message| m@)
}

/// Where the messages of a stream go, and whom they come from.
#[derive(Debug)]
pub struct StreamLink {
    pub stream_topic: String,
    pub stats_topic: String,
    pub source: String,
    pub stream_id: String,
    pub context_window: Option<usize>,
}

/// The model of a [`StreamLink`].
pub struct LinkV {
    pub stream_topic: Seq<char>,
    pub stats_topic: Seq<char>,
    pub source: Seq<char>,
    pub stream_id: Seq<char>,
    pub context_window: Option<usize>,
}

impl View for StreamLink {
    type V = LinkV;

    open spec fn view(&self) -> LinkV {
        LinkV {
            stream_topic: self.stream_topic@,
            stats_topic: self.stats_topic@,
            source: self.source@,
            stream_id: self.stream_id@,
            context_window: self.context_window,
        }
    }
}

impl LinkV {
    /// A piece of output on the stream.
    pub open spec fn piece(self, text: Seq<char>, t: Seq<char>) -> MessageV {
        MessageV::of_text(self.stream_topic, self.source, text).with_type(t).with_stream_id(
            self.stream_id,
        )
    }

    /// The progress of a tool call on the stream.
    pub open spec fn tool_progress(
        self,
        index: usize,
        id: Seq<char>,
        name: Seq<char>,
        args: Seq<char>,
    ) -> MessageV {
        MessageV::new(
            self.stream_topic,
            self.source,
            obj3_v(
                "index"@,
                JsonV::Int(index as int),
                "id"@,
                JsonV::Str(id),
                "function"@,
                obj2_v("name"@, JsonV::Str(name), "arguments"@, JsonV::Str(args)),
            ),
        ).with_type("LlmToolCall"@).with_stream_id(self.stream_id)
    }

    /// The end of the stream.
    pub open spec fn end(self) -> MessageV {
        MessageV::new(
            self.stream_topic,
            self.source,
            obj1_v("type"@, JsonV::Str("stream_end"@)),
        ).with_type("LlmStreamEnd"@).with_stream_id(self.stream_id)
    }

    /// What the stream received.
    pub open spec fn stats(self, rx_chars: usize, usage: Option<Usage>) -> MessageV {
        MessageV::new(
            self.stats_topic,
            self.source,
            stats_json(StreamStats { rx_chars, usage, context_window: self.context_window }),
        ).with_type("StreamStats"@).with_stream_id(self.stream_id)
    }
}

/// A response that streams in.
#[derive(Debug)]
pub struct StreamRun {
    pub link: StreamLink,
    pub full_response: String,
    pub reasoning_response: String,
    pub rx_chars: usize,
    pub state: StreamState,
    pub detector: LoopDetector,
    pub signal: StreamSignal,
    /// The messages to publish, in their order.
    pub out: Vec<Message>,
}

/// The model of a [`StreamRun`].
#[verifier::ext_equal]
pub struct RunV {
    pub link: LinkV,
    pub full: Seq<char>,
    pub reasoning: Seq<char>,
    pub rx_chars: int,
    pub state: StreamStateV,
    pub detector: DetectorV,
    pub signal: StreamSignal,
    pub out: Seq<MessageV>,
}

impl View for StreamRun {
    type V = RunV;

    open spec fn view(&self) -> RunV {
        RunV {
            link: self.link@,
            full: self.full_response@,
            reasoning: self.reasoning_response@,
            rx_chars: self.rx_chars as int,
            state: self.state@,
            detector: self.detector@,
            signal: self.signal,
            out: messages(self.out@),
        }
    }
}

impl RunV {
    pub open spec fn say(self, m: MessageV) -> RunV {
        RunV { out: self.out.push(m), ..self }
    }

    /// The output is counted and shown to the detector, which may end the stream.
    pub open spec fn watched(self, text: Seq<char>) -> RunV {
        let d = self.detector.push(text);
        RunV {
            rx_chars: counted(self.rx_chars + text.len()),
            detector: d,
            signal: if d.last_reason is Some {
                StreamSignal::StuckLoop
            } else {
                self.signal
            },
            ..self
        }
    }

    /// One event.
    pub open spec fn event(self, e: EventV) -> RunV {
        match e {
            EventV::TextDelta { text, .. } => if text.len() > 0 {
                let r = self.say(self.link.piece(text, "LlmStream"@));
                RunV { full: r.full + text, ..r }.watched(text)
            } else {
                self
            },
            EventV::ReasoningDelta { text, .. } => if text.len() > 0 {
                let r = self.say(self.link.piece(text, "LlmThinking"@));
                RunV { reasoning: r.reasoning + text, ..r }.watched(text)
            } else {
                self
            },
            EventV::ToolInputStart { index, id, name } => self.say(
                self.link.tool_progress(index, id, name, ""@),
            ),
            EventV::ToolInputDelta { index, id, name, text } => self.say(
                self.link.tool_progress(index, id, name, text),
            ),
            EventV::ToolInputEnd { index, id, name, input } => self.say(
                self.link.tool_progress(index, id, name, input),
            ),
            _ => self,
        }
    }

    /// The first `n` events, up to one at which the detector ends the stream.
    pub open spec fn events(self, es: Seq<EventV>, n: int) -> RunV
        decreases n,
    {
        if n <= 0 {
            self
        } else {
            let r = self.events(es, n - 1);
            if r.signal == StreamSignal::StuckLoop {
                r
            } else {
                r.event(es[n - 1])
            }
        }
    }

    /// The events of a payload; one that is no JSON is passed over.
    pub open spec fn payload<P: Protocol>(self, p: &P, text: Seq<char>) -> RunV {
        match json_parse(text) {
            Some(v) => {
                let es = p.events_in(v, self.state);
                RunV { state: p.state_after(v, self.state), ..self }.events(es, es.len() as int)
            },
            None => self,
        }
    }

    /// The first `n` payloads, up to one at which the detector ends the stream.
    pub open spec fn payloads<P: Protocol>(self, p: &P, ps: Seq<Seq<char>>, n: int) -> RunV
        decreases n,
    {
        if n <= 0 {
            self
        } else {
            let r = self.payloads(p, ps, n - 1);
            if r.signal == StreamSignal::StuckLoop {
                r
            } else {
                r.payload(p, ps[n - 1])
            }
        }
    }

    /// The end of the stream and its statistics.
    pub open spec fn closed(self) -> RunV {
        self.say(self.link.end()).say(self.link.stats(self.rx_chars as usize, self.state.usage))
    }

    /// The calls that the model wrote into its output, or else into its reasoning.
    pub open spec fn calls_in_text(self, known: Set<Seq<char>>) -> Seq<JsonV> {
        let r = rescued_calls(self.full, known);
        if r.len() == 0 {
            rescued_calls(self.reasoning, known)
        } else {
            r
        }
    }

    /// The tool calls of the turn, and how it ended. Where none came as such, those that
    /// the model wrote into its text count, and make the turn an ordinary one.
    pub open spec fn rescue(self, offered: Option<Seq<JsonV>>) -> (Seq<JsonV>, StreamSignal) {
        match offered {
            Some(tools) => {
                let found = self.calls_in_text(offered_names(tools));
                if self.state.tool_calls.len() == 0 && found.len() > 0 {
                    (found, StreamSignal::Normal)
                } else {
                    (self.state.tool_calls, self.signal)
                }
            },
            None => (self.state.tool_calls, self.signal),
        }
    }

    /// What the turn is reported as: its text, with the reasoning where that went in
    /// circles.
    pub open spec fn report(self, signal: StreamSignal) -> Seq<char> {
        if signal == StreamSignal::StuckLoop && self.reasoning.len() > 0 {
            if self.full.len() == 0 {
                "[reasoning]\n"@ + self.reasoning
            } else {
                "[output]\n"@ + self.full + "\n\n[reasoning]\n"@ + self.reasoning
            }
        } else {
            self.full
        }
    }
}

/// The names of the first `n` tools.
pub open spec fn names_of(tools: Seq<JsonV>, n: int) -> Set<Seq<char>>
    decreases n,
{
    if n <= 0 {
        Set::empty()
    } else {
        match tools[n - 1].at("function"@).str_at("name"@) {
            Some(s) => names_of(tools, n - 1).insert(s),
            None => names_of(tools, n - 1),
        }
    }
}

/// The names of the tools that were offered.
pub open spec fn offered_names(tools: Seq<JsonV>) -> Set<Seq<char>> {
    names_of(tools, tools.len() as int)
}

/// What a stream came to.
#[derive(Debug)]
pub struct StreamOutcome {
    pub payload: String,
    pub tool_calls: Vec<Json>,
    pub signal: StreamSignal,
}

/// The model of a [`StreamOutcome`].
pub struct OutcomeV {
    pub payload: Seq<char>,
    pub tool_calls: Seq<JsonV>,
    pub signal: StreamSignal,
}

impl View for StreamOutcome {
    type V = OutcomeV;

    open spec fn view(&self) -> OutcomeV {
        OutcomeV {
            payload: self.payload@,
            tool_calls: jsons(self.tool_calls@),
            signal: self.signal,
        }
    }
}

fn known_names(tools: &Vec<Json>) -> (r: StringSet)
    ensures
        r@ == offered_names(jsons(tools@)),
{
    let mut out = StringSet::new();
    let mut i: usize = 0;
    while i < tools.len()
        invariant
            i <= tools@.len(),
            out@ == names_of(jsons(tools@), i as int),
        decreases tools.len() - i,
    {
        assert(jsons(tools@)[i as int] == tools@[i as int]@);
        if let Some(f) = tools[i].get("function") {
            if let Some(s) = f.str_at("name") {
                out.insert(s);
            }
        }
        i = i + 1;
    }
    out
}

impl StreamRun {
    /// A response of which nothing has come in. The detector has its own settings, but for
    /// a window or a limit that is given.
    pub fn new(link: StreamLink, loop_cycle_window: usize, loop_max_total_chars: usize) -> (r:
        StreamRun)
        ensures
            r@ == (RunV {
                link: link@,
                full: Seq::empty(),
                reasoning: Seq::empty(),
                rx_chars: 0,
                state: StreamStateV::empty(),
                detector: fresh_detector(loop_cycle_window, loop_max_total_chars),
                signal: StreamSignal::Normal,
                out: Seq::empty(),
            }),
    {
        let mut detector = LoopDetector::new();
        if loop_cycle_window > 0 {
            detector.cycle_window = loop_cycle_window;
        }
        if loop_max_total_chars > 0 {
            detector.max_total_chars = loop_max_total_chars;
        }
        let r = StreamRun {
            link,
            full_response: String::new(),
            reasoning_response: String::new(),
            rx_chars: 0,
            state: StreamState::default(),
            detector,
            signal: StreamSignal::Normal,
            out: Vec::new(),
        };
        assert(r.full_response@ =~= Seq::empty());
        assert(r.reasoning_response@ =~= Seq::empty());
        assert(messages(r.out@) =~= Seq::empty());
        r
    }

    fn say(&mut self, m: Message)
        ensures
            final(self)@ == old(self)@.say(m@),
    {
        let ghost before = self@;
        self.out.push(m);
        assert(messages(self.out@) =~= before.out.push(m@));
        assert(self@ =~= before.say(m@));
    }

    fn piece(&self, text: &str, t: &str) -> (r: Message)
        ensures
            r@ == self.link@.piece(text@, t@),
    {
        Message::text(self.link.stream_topic.as_str(), self.link.source.as_str(), text).with_type(
            t,
        ).with_stream_id(self.link.stream_id.clone())
    }

    fn tool_progress(&self, index: usize, id: &str, name: &str, args: &str) -> (r: Message)
        ensures
            r@ == self.link@.tool_progress(index, id@, name@, args@),
    {
        let payload = obj3(
            "index",
            Json::UInt(index as u64),
            "id",
            Json::text(id),
            "function",
            obj2("name", Json::text(name), "arguments", Json::text(args)),
        );
        Message::new(
            self.link.stream_topic.as_str(),
            self.link.source.as_str(),
            payload,
        ).with_type("LlmToolCall").with_stream_id(self.link.stream_id.clone())
    }

    fn watch(&mut self, text: &str)
        ensures
            final(self)@ == old(self)@.watched(text@),
    {
        let n: usize = to_chars(text).len();
        self.rx_chars = count_up(self.rx_chars, n);
        if self.detector.push(text).is_some() {
            self.signal = StreamSignal::StuckLoop;
        }
    }

    /// Takes in one event.
    pub fn take_event(&mut self, e: &LlmEvent)
        ensures
            final(self)@ == old(self)@.event(e@),
    {
        match e {
            LlmEvent::TextDelta { text, .. } => {
                if to_chars(text.as_str()).len() > 0 {
                    let m = self.piece(text.as_str(), "LlmStream");
                    self.say(m);
                    self.full_response.append(text.as_str());
                    self.watch(text.as_str());
                }
            },
            LlmEvent::ReasoningDelta { text, .. } => {
                if to_chars(text.as_str()).len() > 0 {
                    let m = self.piece(text.as_str(), "LlmThinking");
                    self.say(m);
                    self.reasoning_response.append(text.as_str());
                    self.watch(text.as_str());
                }
            },
            LlmEvent::ToolInputStart { index, id, name } => {
                let m = self.tool_progress(*index, id.as_str(), name.as_str(), "");
                self.say(m);
            },
            LlmEvent::ToolInputDelta { index, id, name, text } => {
                let m = self.tool_progress(*index, id.as_str(), name.as_str(), text.as_str());
                self.say(m);
            },
            LlmEvent::ToolInputEnd { index, id, name, input } => {
                let m = self.tool_progress(*index, id.as_str(), name.as_str(), input.as_str());
                self.say(m);
            },
            _ => {},
        }
    }

    /// Takes in one payload.
    pub fn take_payload<P: Protocol>(&mut self, protocol: &P, payload: &str)
        ensures
            final(self)@ == old(self)@.payload(protocol, payload@),
    {
        let v = match Json::parse(payload) {
            Some(v) => v,
            None => return,
        };
        let es = protocol.parse_event(&v, &mut self.state);
        let ghost start = RunV { state: self.state@, ..old(self)@ };
        assert(self@ =~= start);
        let mut i: usize = 0;
        while i < es.len()
            invariant
                i <= es@.len(),
                self@ == start.events(events(es@), i as int),
            decreases es.len() - i,
        {
            assert(events(es@)[i as int] == es@[i as int]@);
            if self.signal != StreamSignal::StuckLoop {
                self.take_event(&es[i]);
            }
            i = i + 1;
        }
    }

    /// Takes in a piece of the stream; whether the stream is to go on.
    pub fn take_chunk<P: Protocol>(&mut self, protocol: &P, chunk: &[u8]) -> (r: bool)
        ensures
            ({
                let ps = payloads(utf8_lossy(chunk@));
                final(self)@ == old(self)@.payloads(protocol, ps, ps.len() as int)
            }),
            r == (final(self)@.signal != StreamSignal::StuckLoop),
    {
        let ps = decode_sse_chunk(chunk);
        let ghost start = self@;
        let mut i: usize = 0;
        while i < ps.len()
            invariant
                i <= ps@.len(),
                self@ == start.payloads(protocol, texts(ps@), i as int),
            decreases ps.len() - i,
        {
            assert(texts(ps@)[i as int] == ps@[i as int]@);
            if self.signal != StreamSignal::StuckLoop {
                self.take_payload(protocol, ps[i].as_str());
            }
            i = i + 1;
        }
        self.signal != StreamSignal::StuckLoop
    }

    /// Says that the stream has ended, and what it received.
    pub fn close(&mut self)
        ensures
            final(self)@ == old(self)@.closed(),
    {
        let end = Message::new(
            self.link.stream_topic.as_str(),
            self.link.source.as_str(),
            obj1("type", Json::text("stream_end")),
        ).with_type("LlmStreamEnd").with_stream_id(self.link.stream_id.clone());
        self.say(end);
        let stats = StreamStats {
            rx_chars: self.rx_chars,
            usage: self.state.usage,
            context_window: self.link.context_window,
        };
        let m = Message::new(
            self.link.stats_topic.as_str(),
            self.link.source.as_str(),
            stats.to_json(),
        ).with_type("StreamStats").with_stream_id(self.link.stream_id.clone());
        self.say(m);
    }

    /// The stream broke off.
    pub fn on_stream_error(&mut self, message: &str) -> (r: LlmError)
        ensures
            final(self)@ == old(self)@.closed(),
            r matches LlmError::StreamInterrupted(n, e) && e@ == message@ && n == byte_len(
                byte_prefix(old(self)@.full, usize::MAX as int),
            ),
    {
        let n: usize = byte_count(self.full_response.as_str());
        self.close();
        LlmError::StreamInterrupted(n, owned(message))
    }

    /// Nothing came in time. Where nothing has come for long enough the model counts as
    /// idle, and what it said so far is kept; else the stream has failed.
    pub fn on_timeout(&mut self, since_last_ms: u64) -> (r: Result<(), LlmError>)
        ensures
            match r {
                Ok(()) => since_last_ms >= IDLE_TIMEOUT_MS && final(self)@ == (RunV {
                    signal: StreamSignal::Idle,
                    ..old(self)@.closed()
                }),
                Err(e) => since_last_ms < IDLE_TIMEOUT_MS && final(self)@ == old(self)@.closed() && (e
                    matches LlmError::StreamInterrupted(n, why) && why@ == "stream timeout"@ && n
                    == byte_len(byte_prefix(old(self)@.full, usize::MAX as int))),
            },
    {
        if since_last_ms >= IDLE_TIMEOUT_MS {
            self.close();
            self.signal = StreamSignal::Idle;
            return Ok(());
        }
        Err(self.on_stream_error("stream timeout"))
    }

    /// The stream is over: says so, and what it came to.
    pub fn finish(&mut self, offered_tools: Option<&Vec<Json>>) -> (r: StreamOutcome)
        ensures
            final(self)@ == old(self)@.closed(),
            ({
                let (calls, signal) = old(self)@.rescue(
                    match offered_tools {
                        Some(t) => Some(jsons(t@)),
                        None => None,
                    },
                );
                r@ == (OutcomeV { payload: old(self)@.report(signal), tool_calls: calls, signal })
            }),
    {
        let mut tool_calls = crate::json::clone_jsons(&self.state.tool_calls);
        let mut signal = self.signal;
        if tool_calls.len() == 0 {
            if let Some(tools) = offered_tools {
                let known = known_names(tools);
                let mut rescued = extract_tool_calls(self.full_response.as_str(), &known);
                if rescued.len() == 0 {
                    rescued = extract_tool_calls(self.reasoning_response.as_str(), &known);
                }
                if rescued.len() > 0 {
                    tool_calls = rescued;
                    signal = StreamSignal::Normal;
                }
            }
        }
        let payload = if signal == StreamSignal::StuckLoop && to_chars(
            self.reasoning_response.as_str(),
        ).len() > 0 {
            if to_chars(self.full_response.as_str()).len() == 0 {
                let mut p = owned("[reasoning]\n");
                p.append(self.reasoning_response.as_str());
                p
            } else {
                let mut p = owned("[output]\n");
                p.append(self.full_response.as_str());
                p.append("\n\n[reasoning]\n");
                p.append(self.reasoning_response.as_str());
                p
            }
        } else {
            self.full_response.clone()
        };
        self.close();
        StreamOutcome { payload, tool_calls, signal }
    }
}

/// The detector of a new stream.
pub open spec fn fresh_detector(loop_cycle_window: usize, loop_max_total_chars: usize) -> DetectorV {
    DetectorV {
        buffer: Seq::empty(),
        cycle_window: if loop_cycle_window > 0 {
            loop_cycle_window as int
        } else {
            5_000
        },
        cycle_streak: 0,
        cycle_streak_limit: 2,
        cycle_threshold: crate::similarity::Ratio { num: 55, den: 100 },
        min_total_chars: 10_000,
        max_total_chars: if loop_max_total_chars > 0 {
            loop_max_total_chars as int
        } else {
            20_000
        },
        last_check_fed: 0,
        fed_chars: 0,
        last_reason: None,
    }
}

} // verus!
