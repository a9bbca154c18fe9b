//! What the events and the tool calls of a streamed response are made of.

use crate::event::{text_of, EventV, ResponseV};
use crate::json::{keys_once, lemma_get_entry, JsonV};
use crate::lifecycle::{LifecycleState, LifecycleV};
use crate::openai_chat::{chat_body, first_item, parsed_chunk, ChunkV, StreamStateV};
use crate::request::CanonicalV;
use crate::tool_stream::{
    appended, call_at, calls, indices_once, lemma_pieces_do_not_mix, lemma_slot, slot_from,
    AccumulatorV,
};
use vstd::prelude::*;

verus! {

/// One piece of a tool call: its index, and what it adds to the id, the name and the
/// arguments.
pub struct PieceV {
    pub index: usize,
    pub id: Seq<char>,
    pub name: Seq<char>,
    pub args: Seq<char>,
}

/// The calls after all pieces.
pub open spec fn fed(s: Seq<(usize, AccumulatorV)>, ps: Seq<PieceV>) -> Seq<(usize, AccumulatorV)>
    decreases ps.len(),
{
    if ps.len() == 0 {
        s
    } else {
        let p = ps.last();
        appended(fed(s, ps.drop_last()), p.index, p.id, p.name, p.args)
    }
}

/// The ids that the pieces with the index carry, one after the other.
pub open spec fn ids_for(ps: Seq<PieceV>, index: usize) -> Seq<char>
    decreases ps.len(),
{
    if ps.len() == 0 {
        Seq::empty()
    } else {
        ids_for(ps.drop_last(), index) + if ps.last().index == index {
            ps.last().id
        } else {
            Seq::empty()
        }
    }
}

/// The names that the pieces with the index carry, one after the other.
pub open spec fn names_for(ps: Seq<PieceV>, index: usize) -> Seq<char>
    decreases ps.len(),
{
    if ps.len() == 0 {
        Seq::empty()
    } else {
        names_for(ps.drop_last(), index) + if ps.last().index == index {
            ps.last().name
        } else {
            Seq::empty()
        }
    }
}

/// The arguments that the pieces with the index carry, one after the other.
pub open spec fn args_for(ps: Seq<PieceV>, index: usize) -> Seq<char>
    decreases ps.len(),
{
    if ps.len() == 0 {
        Seq::empty()
    } else {
        args_for(ps.drop_last(), index) + if ps.last().index == index {
            ps.last().args
        } else {
            Seq::empty()
        }
    }
}

/// Whether a value is a tool call with this id, name and arguments.
pub open spec fn is_call(v: JsonV, id: Seq<char>, name: Seq<char>, args: Seq<char>) -> bool {
    &&& v.get("id"@) == Some(JsonV::Str(id))
    &&& v.get("type"@) == Some(JsonV::Str("function"@))
    &&& v.get("function"@) matches Some(f) && f.get("name"@) == Some(JsonV::Str(name)) && f.get(
        "arguments"@,
    ) == Some(JsonV::Str(args))
}

proof fn lemma_call_json(a: AccumulatorV)
    ensures
        is_call(a.call(), a.id, a.name, a.input),
{
    reveal_strlit("id");
    reveal_strlit("type");
    reveal_strlit("function");
    reveal_strlit("name");
    reveal_strlit("arguments");
    let o = a.call()->Object_0;
    assert(o[0].0.len() == 2 && o[1].0.len() == 4 && o[2].0.len() == 8);
    lemma_get_entry(o, 0);
    lemma_get_entry(o, 1);
    lemma_get_entry(o, 2);
    let f = o[2].1->Object_0;
    assert(f[0].0.len() == 4 && f[1].0.len() == 9);
    lemma_get_entry(f, 0);
    lemma_get_entry(f, 1);
}

/// Each call is written with its own id, name and arguments, in the order in which the calls
/// began.
pub proof fn lemma_calls_keep_their_own(s: Seq<(usize, AccumulatorV)>, j: int)
    requires
        0 <= j < s.len(),
    ensures
        calls(s).len() == s.len(),
        is_call(calls(s)[j], s[j].1.id, s[j].1.name, s[j].1.input),
{
    lemma_call_json(s[j].1);
    assert(calls(s)[j] == s[j].1.call());
}

proof fn lemma_fed_accumulates(s: Seq<(usize, AccumulatorV)>, ps: Seq<PieceV>, index: usize)
    ensures
        call_at(fed(s, ps), index).id == call_at(s, index).id + ids_for(ps, index),
        call_at(fed(s, ps), index).name == call_at(s, index).name + names_for(ps, index),
        call_at(fed(s, ps), index).input == call_at(s, index).input + args_for(ps, index),
    decreases ps.len(),
{
    if ps.len() == 0 {
        let c = call_at(s, index);
        assert(c.id + Seq::<char>::empty() =~= c.id);
        assert(c.name + Seq::<char>::empty() =~= c.name);
        assert(c.input + Seq::<char>::empty() =~= c.input);
    } else {
        let qs = ps.drop_last();
        let p = ps.last();
        lemma_fed_accumulates(s, qs, index);
        let t = fed(s, qs);
        let c = call_at(fed(s, ps), index);
        let b = call_at(s, index);
        if p.index == index {
            let other: usize = if index == 0 {
                1
            } else {
                0
            };
            lemma_pieces_do_not_mix(t, index, p.id, p.name, p.args, other);
            assert(c.id =~= b.id + ids_for(ps, index));
            assert(c.name =~= b.name + names_for(ps, index));
            assert(c.input =~= b.input + args_for(ps, index));
        } else {
            lemma_pieces_do_not_mix(t, p.index, p.id, p.name, p.args, index);
            assert(ids_for(ps, index) =~= ids_for(qs, index));
            assert(names_for(ps, index) =~= names_for(qs, index));
            assert(args_for(ps, index) =~= args_for(qs, index));
        }
    }
}

proof fn lemma_fed_indices(s: Seq<(usize, AccumulatorV)>, ps: Seq<PieceV>, index: usize)
    requires
        indices_once(s),
    ensures
        indices_once(fed(s, ps)),
        slot_from(fed(s, ps), index, 0) is Some <==> slot_from(s, index, 0) is Some || exists|
            i: int,
        |
            0 <= i < ps.len() && (#[trigger] ps[i]).index == index,
    decreases ps.len(),
{
    if ps.len() > 0 {
        let qs = ps.drop_last();
        let p = ps.last();
        lemma_fed_indices(s, qs, index);
        let t = fed(s, qs);
        let u = fed(s, ps);
        lemma_slot(t, p.index, 0);
        lemma_slot(t, index, 0);
        lemma_slot(u, index, 0);
        if p.index == index {
            assert(ps[ps.len() - 1].index == index);
            match slot_from(t, index, 0) {
                Some(i) => assert(u[i].0 == index),
                None => assert(u[t.len() as int].0 == index),
            }
        } else {
            if let Some(i) = slot_from(t, index, 0) {
                assert(u[i].0 == index);
            }
            if let Some(i) = slot_from(u, index, 0) {
                assert(i < t.len() ==> t[i].0 == index);
            }
            if exists|i: int| 0 <= i < ps.len() && (#[trigger] ps[i]).index == index {
                let i = choose|i: int| 0 <= i < ps.len() && (#[trigger] ps[i]).index == index;
                assert(qs[i].index == index);
            }
            if exists|i: int| 0 <= i < qs.len() && (#[trigger] qs[i]).index == index {
                let i = choose|i: int| 0 <= i < qs.len() && (#[trigger] qs[i]).index == index;
                assert(ps[i].index == index);
            }
        }
    }
}

/// The tool calls that a turn ends with are one for each index that came in, and the one for
/// an index has as id, name and arguments what the pieces with that index carried, one after
/// the other, and of no other.
pub proof fn lemma_calls_of_pieces(ps: Seq<PieceV>, index: usize)
    ensures
        ({
            let s = fed(Seq::empty(), ps);
            &&& calls(s).len() == s.len()
            &&& indices_once(s)
            &&& (exists|i: int| 0 <= i < ps.len() && (#[trigger] ps[i]).index == index) <==> (
            exists|j: int| 0 <= j < s.len() && (#[trigger] s[j]).0 == index)
            &&& forall|j: int|
                0 <= j < s.len() && (#[trigger] s[j]).0 == index ==> is_call(
                    calls(s)[j],
                    ids_for(ps, index),
                    names_for(ps, index),
                    args_for(ps, index),
                )
        }),
{
    let none = Seq::<(usize, AccumulatorV)>::empty();
    let s = fed(none, ps);
    lemma_fed_indices(none, ps, index);
    lemma_fed_accumulates(none, ps, index);
    lemma_slot(s, index, 0);
    assert(call_at(none, index) == AccumulatorV::empty());
    assert(Seq::<char>::empty() + ids_for(ps, index) =~= ids_for(ps, index));
    assert(Seq::<char>::empty() + names_for(ps, index) =~= names_for(ps, index));
    assert(Seq::<char>::empty() + args_for(ps, index) =~= args_for(ps, index));
    assert forall|j: int| 0 <= j < s.len() && (#[trigger] s[j]).0 == index implies is_call(
        calls(s)[j],
        ids_for(ps, index),
        names_for(ps, index),
        args_for(ps, index),
    ) by {
        let i = slot_from(s, index, 0).unwrap();
        assert(i == j) by {
            if i != j {
                assert(s[i].0 == s[j].0);
            }
        }
        lemma_calls_keep_their_own(s, j);
    }
}

/// Calls stay in the order in which they began: a piece changes no place.
pub proof fn lemma_calls_keep_their_place(s: Seq<(usize, AccumulatorV)>, p: PieceV)
    ensures
        ({
            let t = appended(s, p.index, p.id, p.name, p.args);
            &&& s.len() <= t.len() <= s.len() + 1
            &&& forall|j: int| 0 <= j < s.len() ==> (#[trigger] t[j]).0 == s[j].0
            &&& t.len() == s.len() + 1 ==> t.last().0 == p.index
            &&& t.len() == s.len() <==> exists|j: int|
                0 <= j < s.len() && (#[trigger] s[j]).0 == p.index
        }),
{
    lemma_slot(s, p.index, 0);
}

// ---- one chunk

/// The text under a key, or an empty one.
pub open spec fn text_at(v: JsonV, k: Seq<char>) -> Seq<char> {
    match v.get(k) {
        Some(JsonV::Str(s)) => s,
        _ => Seq::empty(),
    }
}

/// The pieces that a list of tool call deltas holds: those with an index.
pub open spec fn pieces_in(a: Seq<JsonV>) -> Seq<PieceV>
    decreases a.len(),
{
    if a.len() == 0 {
        Seq::empty()
    } else {
        let tc = a.last();
        match tc.get("index"@) {
            Some(JsonV::Int(n)) => if 0 <= n <= u64::MAX {
                pieces_in(a.drop_last()).push(
                    PieceV {
                        index: (n as u64) as usize,
                        id: text_at(tc, "id"@),
                        name: match tc.get("function"@) {
                            Some(f) => text_at(f, "name"@),
                            None => Seq::empty(),
                        },
                        args: match tc.get("function"@) {
                            Some(f) => text_at(f, "arguments"@),
                            None => Seq::empty(),
                        },
                    },
                )
            } else {
                pieces_in(a.drop_last())
            },
            _ => pieces_in(a.drop_last()),
        }
    }
}

/// The list of tool call deltas in a chunk.
pub open spec fn deltas_in(raw: JsonV) -> Option<Seq<JsonV>> {
    match delta_in(raw) {
        Some(d) => match d.get("tool_calls"@) {
            Some(JsonV::Array(a)) => Some(a),
            _ => None,
        },
        None => None,
    }
}

/// The first choice of a chunk.
pub open spec fn choice_in(raw: JsonV) -> Option<JsonV> {
    match raw.get("choices"@) {
        Some(JsonV::Array(a)) => if a.len() > 0 {
            Some(a[0])
        } else {
            None
        },
        _ => None,
    }
}

/// What the first choice of a chunk adds.
pub open spec fn delta_in(raw: JsonV) -> Option<JsonV> {
    match choice_in(raw) {
        Some(c) => c.get("delta"@),
        None => None,
    }
}

proof fn lemma_tool_pieces(c: ChunkV, a: Seq<JsonV>, n: int)
    requires
        0 <= n <= a.len(),
    ensures
        c.tool_pieces(a, n).state == (StreamStateV {
            tools: fed(c.state.tools, pieces_in(a.take(n))),
            ..c.state
        }),
        c.tool_pieces(a, n).life == c.life,
        text_of(c.tool_pieces(a, n).events) == text_of(c.events),
        reasoning_of(c.tool_pieces(a, n).events) == reasoning_of(c.events),
        ends_of(c.tool_pieces(a, n).events) == ends_of(c.events),
    decreases n,
{
    reveal_strlit("");
    assert(""@ =~= Seq::<char>::empty());
    if n > 0 {
        lemma_tool_pieces(c, a, n - 1);
        assert(a.take(n).drop_last() =~= a.take(n - 1));
        let b = c.tool_pieces(a, n - 1);
        let tc = a[n - 1];
        assert(a.take(n).last() == tc);
        if let Some(m) = tc.at("index"@).as_u64() {
            let e = b.events;
            let f = c.tool_pieces(a, n).events;
            let (x, y, z) = (f[f.len() - 3], f[f.len() - 2], f[f.len() - 1]);
            assert(f == e.push(x).push(y).push(z));
            lemma_texts_push(e, x);
            lemma_texts_push(e.push(x), y);
            lemma_texts_push(e.push(x).push(y), z);
            let ps = pieces_in(a.take(n));
            assert(ps.drop_last() =~= pieces_in(a.take(n - 1)));
        }
    } else {
        assert(a.take(0) =~= Seq::empty());
    }
}

/// The reasoning of the events' deltas, in their order.
pub open spec fn reasoning_of(es: Seq<EventV>) -> Seq<char>
    decreases es.len(),
{
    if es.len() == 0 {
        Seq::empty()
    } else {
        match es.last() {
            EventV::ReasoningDelta { text, .. } => reasoning_of(es.drop_last()) + text,
            _ => reasoning_of(es.drop_last()),
        }
    }
}

/// The reasons of the events that end the stream.
pub open spec fn ends_of(es: Seq<EventV>) -> Seq<Seq<char>>
    decreases es.len(),
{
    if es.len() == 0 {
        Seq::empty()
    } else {
        match es.last() {
            EventV::Finish { reason, .. } => ends_of(es.drop_last()).push(reason),
            _ => ends_of(es.drop_last()),
        }
    }
}

proof fn lemma_texts_push(es: Seq<EventV>, e: EventV)
    ensures
        text_of(es.push(e)) == (match e {
            EventV::TextDelta { text, .. } => text_of(es) + text,
            _ => text_of(es),
        }),
        reasoning_of(es.push(e)) == (match e {
            EventV::ReasoningDelta { text, .. } => reasoning_of(es) + text,
            _ => reasoning_of(es),
        }),
        ends_of(es.push(e)) == (match e {
            EventV::Finish { reason, .. } => ends_of(es).push(reason),
            _ => ends_of(es),
        }),
{
    assert(es.push(e).drop_last() =~= es);
}

proof fn lemma_texts_add(es: Seq<EventV>, fs: Seq<EventV>)
    ensures
        text_of(es + fs) == text_of(es) + text_of(fs),
        reasoning_of(es + fs) == reasoning_of(es) + reasoning_of(fs),
        ends_of(es + fs) == ends_of(es) + ends_of(fs),
    decreases fs.len(),
{
    if fs.len() == 0 {
        assert(es + fs =~= es);
        assert(text_of(es) + text_of(fs) =~= text_of(es));
        assert(reasoning_of(es) + reasoning_of(fs) =~= reasoning_of(es));
        assert(ends_of(es) + ends_of(fs) =~= ends_of(es));
    } else {
        let gs = fs.drop_last();
        lemma_texts_add(es, gs);
        assert(es + fs =~= (es + gs).push(fs.last()));
        assert(fs =~= gs.push(fs.last()));
        lemma_texts_push(es + gs, fs.last());
        lemma_texts_push(gs, fs.last());
        assert(text_of(es + fs) =~= text_of(es) + text_of(fs));
        assert(reasoning_of(es + fs) =~= reasoning_of(es) + reasoning_of(fs));
        assert(ends_of(es + fs) =~= ends_of(es) + ends_of(fs));
    }
}

proof fn lemma_life_texts(l: LifecycleV, t: Seq<char>)
    ensures
        text_of(l.reasoning_events(t)) == Seq::<char>::empty(),
        reasoning_of(l.reasoning_events(t)) == t,
        ends_of(l.reasoning_events(t)) == Seq::<Seq<char>>::empty(),
        text_of(l.text_events(t)) == t,
        reasoning_of(l.text_events(t)) == Seq::<char>::empty(),
        ends_of(l.text_events(t)) == Seq::<Seq<char>>::empty(),
        text_of(l.reasoning_end_events()) == Seq::<char>::empty(),
        reasoning_of(l.reasoning_end_events()) == Seq::<char>::empty(),
        ends_of(l.reasoning_end_events()) == Seq::<Seq<char>>::empty(),
        text_of(l.finish_events(t)) == Seq::<char>::empty(),
        reasoning_of(l.finish_events(t)) == Seq::<char>::empty(),
        ends_of(l.finish_events(t)) == seq![t],
{
    reveal_with_fuel(text_of, 4);
    reveal_with_fuel(reasoning_of, 4);
    reveal_with_fuel(ends_of, 4);
    let none = Seq::<EventV>::empty();
    let r = l.reasoning_events(t);
    lemma_texts_push(r.drop_last(), r.last());
    assert(r =~= r.drop_last().push(r.last()));
    assert(Seq::<char>::empty() + t =~= t);
    if l.state != LifecycleState::Reasoning {
        lemma_texts_push(none, EventV::ReasoningStart { id: l.reasoning_id });
        assert(r.drop_last() =~= none.push(EventV::ReasoningStart { id: l.reasoning_id }));
    } else {
        assert(r.drop_last() =~= none);
        lemma_texts_push(none, EventV::ReasoningEnd { id: l.reasoning_id });
        assert(l.reasoning_end_events() =~= none.push(
            EventV::ReasoningEnd { id: l.reasoning_id },
        ));
    }
    let start = if l.state != LifecycleState::Text {
        seq![EventV::TextStart { id: l.text_id }]
    } else {
        none
    };
    lemma_texts_push(none, EventV::TextStart { id: l.text_id });
    assert(seq![EventV::TextStart { id: l.text_id }] =~= none.push(
        EventV::TextStart { id: l.text_id },
    ));
    lemma_texts_add(l.reasoning_end_events(), start);
    lemma_texts_push(
        l.reasoning_end_events() + start,
        EventV::TextDelta { id: l.text_id, text: t },
    );
    assert(Seq::<char>::empty() + Seq::<char>::empty() =~= Seq::<char>::empty());
    lemma_texts_push(none, EventV::TextEnd { id: l.text_id });
    assert(seq![EventV::TextEnd { id: l.text_id }] =~= none.push(EventV::TextEnd { id: l.text_id }));
    lemma_texts_add(l.reasoning_end_events(), l.text_end_events());
    lemma_texts_push(
        l.reasoning_end_events() + l.text_end_events(),
        EventV::Finish { reason: t, usage: None },
    );
    assert(Seq::<Seq<char>>::empty().push(t) =~= seq![t]);
    assert(ends_of(l.reasoning_end_events()) + ends_of(l.text_end_events()) =~= Seq::empty());
}

/// A chunk adds to the tool calls the pieces that it holds, each to the call with its index,
/// and the calls that the turn has so far are written anew from all pieces.
pub proof fn lemma_chunk_feeds_calls(raw: JsonV, state: StreamStateV)
    ensures
        ({
            let t = parsed_chunk(raw, state).state;
            match deltas_in(raw) {
                Some(a) => t.tools == fed(state.tools, pieces_in(a)) && t.tool_calls == calls(
                    t.tools,
                ),
                None => t.tools == state.tools && t.tool_calls == state.tool_calls,
            }
        }),
{
    if let Some(a) = deltas_in(raw) {
        let c = ChunkV::start(state, raw.get("usage"@));
        let d = delta_in(raw).unwrap();
        let e = c.reasoning(d.str_at("reasoning_content"@)).text(d.str_at("content"@));
        let f = ChunkV {
            events: e.events + e.life.reasoning_end_events(),
            life: e.life.reasoning_ended(),
            ..e
        };
        lemma_tool_pieces(f, a, a.len() as int);
        assert(a.take(a.len() as int) =~= a);
        assert(first_item(raw.at("choices"@)) == choice_in(raw));
    }
}

/// The call with an index has after a chunk what it had before and what the pieces of the chunk
/// with that index carry.
pub proof fn lemma_chunk_adds_to_each_call(raw: JsonV, state: StreamStateV, index: usize)
    requires
        deltas_in(raw) is Some,
    ensures
        ({
            let t = parsed_chunk(raw, state).state;
            let ps = pieces_in(deltas_in(raw).unwrap());
            &&& call_at(t.tools, index).id == call_at(state.tools, index).id + ids_for(ps, index)
            &&& call_at(t.tools, index).name == call_at(state.tools, index).name + names_for(
                ps,
                index,
            )
            &&& call_at(t.tools, index).input == call_at(state.tools, index).input + args_for(
                ps,
                index,
            )
            &&& forall|j: int|
                0 <= j < t.tools.len() ==> is_call(
                    #[trigger] t.tool_calls[j],
                    t.tools[j].1.id,
                    t.tools[j].1.name,
                    t.tools[j].1.input,
                )
            &&& t.tool_calls.len() == t.tools.len()
        }),
{
    lemma_chunk_feeds_calls(raw, state);
    let t = parsed_chunk(raw, state).state;
    lemma_fed_accumulates(state.tools, pieces_in(deltas_in(raw).unwrap()), index);
    assert forall|j: int| 0 <= j < t.tools.len() implies is_call(
        #[trigger] t.tool_calls[j],
        t.tools[j].1.id,
        t.tools[j].1.name,
        t.tools[j].1.input,
    ) by {
        lemma_calls_keep_their_own(t.tools, j);
    }
}

/// The events of a chunk carry its text and its reasoning, whole and unchanged, and end the
/// stream exactly where it states a reason, with that reason.
pub proof fn lemma_chunk_is_passed_on(raw: JsonV, state: StreamStateV)
    ensures
        ({
            let c = parsed_chunk(raw, state);
            &&& text_of(c.events) == match delta_in(raw) {
                Some(d) => text_at(d, "content"@),
                None => Seq::empty(),
            }
            &&& reasoning_of(c.events) == match delta_in(raw) {
                Some(d) => text_at(d, "reasoning_content"@),
                None => Seq::empty(),
            }
            &&& match choice_in(raw) {
                Some(ch) => match ch.get("finish_reason"@) {
                    Some(JsonV::Str(r)) => ends_of(c.events) == seq![r] && c.state.finish_reason
                        == Some(r),
                    _ => ends_of(c.events).len() == 0 && c.state.finish_reason
                        == state.finish_reason,
                },
                None => ends_of(c.events).len() == 0 && c.state.finish_reason
                    == state.finish_reason,
            }
            &&& c.state.text == state.text
            &&& c.state.reasoning == state.reasoning
        }),
{
    let none = Seq::<char>::empty();
    let c = ChunkV::start(state, raw.get("usage"@));
    assert(text_of(c.events) == none && reasoning_of(c.events) == none);
    assert(ends_of(c.events).len() == 0);
    assert(first_item(raw.at("choices"@)) == choice_in(raw));
    if let Some(ch) = choice_in(raw) {
        let e = c.delta(ch.get("delta"@));
        if let Some(d) = ch.get("delta"@) {
            let r = text_at(d, "reasoning_content"@);
            let t = text_at(d, "content"@);
            let c1 = c.reasoning(d.str_at("reasoning_content"@));
            lemma_life_texts(c.life, r);
            lemma_texts_add(c.events, c.life.reasoning_events(r));
            assert(reasoning_of(c1.events) =~= r);
            assert(text_of(c1.events) =~= none);
            assert(ends_of(c1.events) =~= Seq::empty());
            let c2 = c1.text(d.str_at("content"@));
            lemma_life_texts(c1.life, t);
            lemma_texts_add(c1.events, c1.life.text_events(t));
            assert(reasoning_of(c2.events) =~= r);
            assert(text_of(c2.events) =~= t);
            assert(ends_of(c2.events) =~= Seq::empty());
            if let Some(a) = d.at("tool_calls"@).as_array() {
                lemma_life_texts(c2.life, t);
                lemma_texts_add(c2.events, c2.life.reasoning_end_events());
                let f = ChunkV {
                    events: c2.events + c2.life.reasoning_end_events(),
                    life: c2.life.reasoning_ended(),
                    ..c2
                };
                lemma_tool_pieces(f, a, a.len() as int);
                assert(reasoning_of(e.events) =~= r);
                assert(text_of(e.events) =~= t);
                assert(ends_of(e.events) =~= Seq::empty());
            }
        }
        if let Some(reason) = ch.str_at("finish_reason"@) {
            lemma_life_texts(e.life, reason);
            lemma_texts_add(e.events, e.life.finish_events(reason));
            let g = e.finish(Some(reason));
            assert(text_of(g.events) =~= text_of(e.events));
            assert(reasoning_of(g.events) =~= reasoning_of(e.events));
            assert(ends_of(g.events) =~= seq![reason]);
        }
    }
}

/// A count that a chunk reports.
pub open spec fn count_at(v: JsonV, k: Seq<char>) -> Option<int> {
    match v.get(k) {
        Some(JsonV::Int(n)) => if 0 <= n <= u64::MAX {
            Some(n)
        } else {
            None
        },
        _ => None,
    }
}

/// The usage that a chunk reports is kept, each count as it stands there; a chunk without any
/// leaves what was reported before.
pub proof fn lemma_usage_is_kept(raw: JsonV, state: StreamStateV)
    ensures
        match raw.get("usage"@) {
            Some(u) => parsed_chunk(raw, state).state.usage matches Some(w) && {
                &&& w.input_tokens matches Some(n) ==> count_at(u, "prompt_tokens"@) == Some(n as int)
                &&& w.input_tokens is None ==> count_at(u, "prompt_tokens"@) is None
                &&& w.output_tokens matches Some(n) ==> count_at(u, "completion_tokens"@) == Some(
                    n as int,
                )
                &&& w.output_tokens is None ==> count_at(u, "completion_tokens"@) is None
                &&& w.total_tokens matches Some(n) ==> count_at(u, "total_tokens"@) == Some(n as int)
                &&& w.total_tokens is None ==> count_at(u, "total_tokens"@) is None
            },
            None => parsed_chunk(raw, state).state.usage == state.usage,
        },
{
    lemma_usage_untouched(raw, state);
}

proof fn lemma_usage_untouched(raw: JsonV, state: StreamStateV)
    ensures
        parsed_chunk(raw, state).state.usage == ChunkV::start(state, raw.get("usage"@)).state.usage,
{
    let c = ChunkV::start(state, raw.get("usage"@));
    if let Some(ch) = first_item(raw.at("choices"@)) {
        if let Some(d) = ch.get("delta"@) {
            if let Some(a) = d.at("tool_calls"@).as_array() {
                let e = c.reasoning(d.str_at("reasoning_content"@)).text(d.str_at("content"@));
                let f = ChunkV {
                    events: e.events + e.life.reasoning_end_events(),
                    life: e.life.reasoning_ended(),
                    ..e
                };
                lemma_tool_pieces(f, a, a.len() as int);
            }
        }
    }
}

/// What is asked of the model stands in the body of the request: the model's name and the
/// messages as they are, the limits and the tools where there are any; and it asks for a
/// stream that ends with the usage.
pub proof fn lemma_body_carries_request(r: CanonicalV)
    ensures
        ({
            let b = chat_body(r);
            &&& b.get("model"@) == Some(JsonV::Str(r.model))
            &&& b.get("messages"@) == Some(JsonV::Array(r.messages))
            &&& b.get("stream"@) == Some(JsonV::Bool(true))
            &&& b.get("stream_options"@) matches Some(o) && o.get("include_usage"@) == Some(
                JsonV::Bool(true),
            )
            &&& r.temperature matches Some(t) ==> b.get("temperature"@) == Some(JsonV::Float(t))
            &&& r.max_tokens matches Some(n) ==> b.get("max_tokens"@) == Some(JsonV::Int(n as int))
            &&& match r.tools {
                Some(t) => b.get("tools"@) == Some(JsonV::Array(t)),
                None => b.get("tools"@) is None,
            }
            &&& match r.grammar {
                Some(g) => b.get("grammar"@) == Some(JsonV::Str(g)),
                None => b.get("grammar"@) is None,
            }
        }),
{
    reveal_strlit("model");
    reveal_strlit("messages");
    reveal_strlit("temperature");
    reveal_strlit("max_tokens");
    reveal_strlit("stream");
    reveal_strlit("stream_options");
    reveal_strlit("tools");
    reveal_strlit("grammar");
    assert("model"@.len() == 5 && "messages"@.len() == 8 && "temperature"@.len() == 11);
    assert("max_tokens"@.len() == 10 && "stream"@.len() == 6 && "stream_options"@.len() == 14);
    assert("tools"@.len() == 5 && "grammar"@.len() == 7 && "model"@[0] == 'm' && "tools"@[0]
        == 't');
    let o = chat_body(r)->Object_0;
    assert(keys_once(o));
    lemma_get_entry(o, 0);
    lemma_get_entry(o, 1);
    lemma_get_entry(o, 2);
    lemma_get_entry(o, 3);
    lemma_get_entry(o, 4);
    lemma_get_entry(o, 5);
    if r.tools is None {
        crate::json::lemma_get_none(o, "tools"@);
    } else {
        lemma_get_entry(o, 6);
    }
    if r.grammar is None {
        crate::json::lemma_get_none(o, "grammar"@);
    } else {
        lemma_get_entry(o, o.len() - 1);
    }
    let p = o[5].1->Object_0;
    lemma_get_entry(p, 0);
}

/// A response's reasoning is that of the reasoning deltas that came in, in their order.
pub proof fn lemma_response_reasoning(es: Seq<EventV>)
    ensures
        ResponseV::empty().reduce_all(es).reasoning == reasoning_of(es),
    decreases es.len(),
{
    if es.len() > 0 {
        lemma_response_reasoning(es.drop_last());
    }
}

/// A piece of a tool call is told by its beginning, what it brings, and what the call's arguments
/// have come to; all under its own index.
pub proof fn lemma_piece_is_told(c: ChunkV, tc: JsonV, n: int)
    requires
        tc.get("index"@) == Some(JsonV::Int(n)),
        0 <= n <= u64::MAX,
    ensures
        ({
            let d = c.tool_piece(tc);
            let k = c.events.len() as int;
            let index = (n as u64) as usize;
            let (id, name, args) = match tc.get("function"@) {
                Some(f) => (text_at(tc, "id"@), text_at(f, "name"@), text_at(f, "arguments"@)),
                None => (text_at(tc, "id"@), Seq::empty(), Seq::empty()),
            };
            &&& d.events.len() == k + 3 && d.events.take(k) == c.events
            &&& d.events[k] == (EventV::ToolInputStart { index, id, name })
            &&& d.events[k + 1] == (EventV::ToolInputDelta { index, id, name, text: args })
            &&& d.events[k + 2] == (EventV::ToolInputEnd {
                index,
                id,
                name,
                input: call_at(c.state.tools, index).input + args,
            })
        }),
{
    reveal_strlit("");
    assert(""@ =~= Seq::<char>::empty());
    let d = c.tool_piece(tc);
    let k = c.events.len() as int;
    assert(d.events.take(k) =~= c.events);
    let index = (n as u64) as usize;
    let id = tc.str_or("id"@, ""@);
    let name = tc.at("function"@).str_or("name"@, ""@);
    let args = tc.at("function"@).str_or("arguments"@, ""@);
    let other: usize = if index == 0 {
        1
    } else {
        0
    };
    lemma_pieces_do_not_mix(c.state.tools, index, id, name, args, other);
}

} // verus!
