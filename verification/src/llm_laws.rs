//! What holds of every streamed response.

use crate::event::EventV;
use crate::json::JsonV;
use crate::llm_stream::{LinkV, RunV, StreamSignal};
use crate::message::{lemma_metadata_reads_back, MessageV};
use vstd::prelude::*;

verus! {

/// The texts that the messages of one type carry, in their order.
pub open spec fn carried(out: Seq<MessageV>, t: Seq<char>) -> Seq<char>
    decreases out.len(),
{
    if out.len() == 0 {
        Seq::empty()
    } else {
        let before = carried(out.drop_last(), t);
        match out.last().payload {
            JsonV::Str(s) => if out.last().meta_type() == Some(t) {
                before + s
            } else {
                before
            },
            _ => before,
        }
    }
}

/// Whether all output that was kept was published, and nothing else.
pub open spec fn shows_what_it_keeps(r: RunV) -> bool {
    carried(r.out, "LlmStream"@) == r.full && carried(r.out, "LlmThinking"@) == r.reasoning
}

proof fn lemma_carried_push(out: Seq<MessageV>, m: MessageV, t: Seq<char>)
    ensures
        carried(out.push(m), t) == (match m.payload {
            JsonV::Str(s) => if m.meta_type() == Some(t) {
                carried(out, t) + s
            } else {
                carried(out, t)
            },
            _ => carried(out, t),
        }),
{
    assert(out.push(m).drop_last() =~= out);
}

proof fn lemma_piece(l: LinkV, text: Seq<char>, t: Seq<char>)
    ensures
        l.piece(text, t).meta_type() == Some(t),
        l.piece(text, t).payload == JsonV::Str(text),
{
    let m = MessageV::of_text(l.stream_topic, l.source, text);
    lemma_metadata_reads_back(m, t, l.stream_id, 0);
    lemma_metadata_reads_back(m.with_type(t), t, l.stream_id, 0);
}

proof fn lemma_types_differ()
    ensures
        "LlmStream"@ != "LlmThinking"@,
{
    reveal_strlit("LlmStream");
    reveal_strlit("LlmThinking");
    assert("LlmStream"@.len() == 9);
    assert("LlmThinking"@.len() == 11);
}

proof fn lemma_event_shows(r: RunV, e: EventV)
    requires
        shows_what_it_keeps(r),
    ensures
        shows_what_it_keeps(r.event(e)),
{
    lemma_types_differ();
    match e {
        EventV::TextDelta { text, .. } => {
            lemma_piece(r.link, text, "LlmStream"@);
            let m = r.link.piece(text, "LlmStream"@);
            lemma_carried_push(r.out, m, "LlmStream"@);
            lemma_carried_push(r.out, m, "LlmThinking"@);
        },
        EventV::ReasoningDelta { text, .. } => {
            lemma_piece(r.link, text, "LlmThinking"@);
            let m = r.link.piece(text, "LlmThinking"@);
            lemma_carried_push(r.out, m, "LlmStream"@);
            lemma_carried_push(r.out, m, "LlmThinking"@);
        },
        EventV::ToolInputStart { index, id, name } => {
            let m = r.link.tool_progress(index, id, name, ""@);
            lemma_carried_push(r.out, m, "LlmStream"@);
            lemma_carried_push(r.out, m, "LlmThinking"@);
        },
        EventV::ToolInputDelta { index, id, name, text } => {
            let m = r.link.tool_progress(index, id, name, text);
            lemma_carried_push(r.out, m, "LlmStream"@);
            lemma_carried_push(r.out, m, "LlmThinking"@);
        },
        EventV::ToolInputEnd { index, id, name, input } => {
            let m = r.link.tool_progress(index, id, name, input);
            lemma_carried_push(r.out, m, "LlmStream"@);
            lemma_carried_push(r.out, m, "LlmThinking"@);
        },
        _ => {},
    }
}

/// What a response shows while it streams in is what it is reported as in the end: the
/// pieces of text that were published, put together, are the response, and likewise the
/// reasoning.
pub proof fn lemma_stream_shows_what_it_keeps(r: RunV, es: Seq<EventV>, n: int)
    requires
        shows_what_it_keeps(r),
        0 <= n <= es.len(),
    ensures
        shows_what_it_keeps(r.events(es, n)),
        shows_what_it_keeps(r.events(es, n).closed()),
    decreases n,
{
    if n > 0 {
        lemma_stream_shows_what_it_keeps(r, es, n - 1);
        let before = r.events(es, n - 1);
        if before.signal != StreamSignal::StuckLoop {
            lemma_event_shows(before, es[n - 1]);
        }
    }
    let q = r.events(es, n);
    let end = q.link.end();
    let stats = q.link.stats(q.rx_chars as usize, q.state.usage);
    lemma_carried_push(q.out, end, "LlmStream"@);
    lemma_carried_push(q.out, end, "LlmThinking"@);
    lemma_carried_push(q.out.push(end), stats, "LlmStream"@);
    lemma_carried_push(q.out.push(end), stats, "LlmThinking"@);
}

/// Nothing is taken in once the detector has ended the stream.
pub proof fn lemma_stuck_stream_stays(r: RunV, es: Seq<EventV>, n: int)
    requires
        r.signal == StreamSignal::StuckLoop,
    ensures
        r.events(es, n) == r,
    decreases n,
{
    if n > 0 {
        lemma_stuck_stream_stays(r, es, n - 1);
    }
}

/// Tool calls that came as such are never replaced by ones found in the text, and the way
/// the turn ended stands.
pub proof fn lemma_structured_calls_stand(r: RunV, offered: Option<Seq<JsonV>>)
    requires
        r.state.tool_calls.len() > 0,
    ensures
        r.rescue(offered) == (r.state.tool_calls, r.signal),
{
}

} // verus!
