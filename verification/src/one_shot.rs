//! A single question to the model, outside of any conversation.

use crate::config::{LlmConfig, LlmConfigV};
use crate::event::{events, text_of, LlmEvent};
use crate::framing::{decode_sse_chunk, payloads, utf8_lossy};
use crate::json::{json_parse, jsons, obj2, obj2_v, Json, JsonV};
use crate::llm_error::LlmError;
use crate::openai_chat::{Protocol, StreamState, StreamStateV};
use crate::request::{CanonicalRequest, CanonicalV};
use crate::text::{owned, texts, to_chars};
use vstd::prelude::*;

verus! {

/// The request for an answer to one instruction.
pub open spec fn question(config: LlmConfigV, instruction: Seq<char>) -> CanonicalV {
    CanonicalV {
        model: config.model,
        messages: seq![
            obj2_v("role"@, JsonV::Str("user"@), "content"@, JsonV::Str(instruction)),
        ],
        tools: None,
        tool_choice: None,
        temperature: Some(config.temperature),
        max_tokens: Some(config.max_tokens),
        stream: true,
        grammar: None,
    }
}

/// The request for an answer to one instruction; it needs a model.
pub fn one_shot_request(config: &LlmConfig, instruction: &str) -> (r: Result<
    CanonicalRequest,
    String,
>)
    ensures
        match r {
            Ok(c) => config@.model.len() > 0 && c@ == question(config@, instruction@),
            Err(e) => config@.model.len() == 0 && e@ == "LLM model name is empty"@,
        },
{
    if to_chars(config.model.as_str()).len() == 0 {
        return Err(owned("LLM model name is empty"));
    }
    let messages: Vec<Json> = vec![
        obj2("role", Json::text("user"), "content", Json::text(instruction)),
    ];
    assert(jsons(messages@) =~= question(config@, instruction@).messages);
    Ok(
        CanonicalRequest {
            model: config.model.clone(),
            messages,
            tools: None,
            tool_choice: None,
            temperature: Some(config.temperature.clone()),
            max_tokens: Some(config.max_tokens),
            stream: true,
            grammar: None,
        },
    )
}

/// The answer as it streams in.
#[derive(Debug)]
pub struct OneShot {
    pub text: String,
    pub state: StreamState,
}

/// The model of a [`OneShot`].
#[verifier::ext_equal]
pub struct OneShotV {
    pub text: Seq<char>,
    pub state: StreamStateV,
}

impl View for OneShot {
    type V = OneShotV;

    open spec fn view(&self) -> OneShotV {
        OneShotV { text: self.text@, state: self.state@ }
    }
}

impl OneShotV {
    /// A payload; one that is no JSON is passed over.
    pub open spec fn payload<P: Protocol>(self, p: &P, payload: Seq<char>) -> OneShotV {
        match json_parse(payload) {
            Some(v) => OneShotV {
                text: self.text + text_of(p.events_in(v, self.state)),
                state: p.state_after(v, self.state),
            },
            None => self,
        }
    }

    /// The first `n` payloads.
    pub open spec fn payloads<P: Protocol>(self, p: &P, ps: Seq<Seq<char>>, n: int) -> OneShotV
        decreases n,
    {
        if n <= 0 {
            self
        } else {
            self.payloads(p, ps, n - 1).payload(p, ps[n - 1])
        }
    }
}

impl OneShot {
    pub fn new() -> (r: OneShot)
        ensures
            r@ == (OneShotV { text: Seq::empty(), state: StreamStateV::empty() }),
    {
        let r = OneShot { text: String::new(), state: StreamState::default() };
        assert(r.text@ =~= Seq::empty());
        r
    }

    /// Takes in a piece of the stream.
    pub fn take_chunk<P: Protocol>(&mut self, protocol: &P, chunk: &[u8])
        ensures
            ({
                let ps = payloads(utf8_lossy(chunk@));
                final(self)@ == old(self)@.payloads(protocol, ps, ps.len() as int)
            }),
    {
        let ps = decode_sse_chunk(chunk);
        let ghost start = self@;
        let mut i: usize = 0;
        while i < ps.len()
            invariant
                i <= ps@.len(),
                self@ == start.payloads(protocol, texts(ps@), i as int),
            decreases ps.len() - i,
        {
            assert(texts(ps@)[i as int] == ps@[i as int]@);
            if let Some(v) = Json::parse(ps[i].as_str()) {
                let es = protocol.parse_event(&v, &mut self.state);
                let t = collect_text(&es);
                self.text.append(t.as_str());
            }
            i = i + 1;
        }
    }

    /// The answer: the text that streamed in, or else what the stream had gathered.
    pub fn finish(self) -> (r: String)
        ensures
            r@ == (if self@.text.len() == 0 && self@.state.text.len() > 0 {
                self@.state.text
            } else {
                self@.text
            }),
    {
        if to_chars(self.text.as_str()).len() == 0 && to_chars(self.state.text.as_str()).len() > 0 {
            self.state.text
        } else {
            self.text
        }
    }
}

/// The text of the events' text deltas.
fn collect_text(es: &Vec<LlmEvent>) -> (r: String)
    ensures
        r@ == text_of(events(es@)),
{
    let mut out = String::new();
    let ghost ev = events(es@);
    let mut i: usize = 0;
    assert(out@ =~= text_of(ev.take(0)));
    while i < es.len()
        invariant
            i <= es@.len(),
            ev == events(es@),
            out@ == text_of(ev.take(i as int)),
        decreases es.len() - i,
    {
        assert(ev[i as int] == es@[i as int]@);
        assert(ev.take(i + 1).drop_last() =~= ev.take(i as int));
        if let LlmEvent::TextDelta { text, .. } = &es[i] {
            out.append(text.as_str());
        }
        i = i + 1;
    }
    assert(ev.take(i as int) =~= ev);
    out
}

/// What a failed request is reported as.
pub fn request_failed(e: &LlmError) -> (r: String)
    ensures
        r@ == "LLM request failed: "@ + e.words(),
{
    let mut m = owned("LLM request failed: ");
    m.append(e.message().as_str());
    m
}

/// What a broken stream is reported as.
pub fn stream_failed(e: &str) -> (r: String)
    ensures
        r@ == "Stream error: "@ + e@,
{
    let mut m = owned("Stream error: ");
    m.append(e);
    m
}

} // verus!
