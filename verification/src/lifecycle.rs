//! The blocks of text and reasoning of a stream: each is started, fed and ended.

use crate::event::{events, push_event, EventV, LlmEvent};
use crate::text::owned;
use vstd::prelude::*;

verus! {

/// The block that is open.
#[derive(Clone, Copy, Debug, PartialEq, Eq, Structural)]
pub enum LifecycleState {
    Idle,
    Reasoning,
    Text,
}

impl Default for LifecycleState {
    fn default() -> (r: LifecycleState)
        ensures
            r == LifecycleState::Idle,
    {
        LifecycleState::Idle
    }
}

/// Starts and ends the blocks of a stream.
#[derive(Debug)]
pub struct StreamLifecycle {
    pub state: LifecycleState,
    pub reasoning_id: String,
    pub text_id: String,
}

/// The model of a [`StreamLifecycle`].
pub struct LifecycleV {
    pub state: LifecycleState,
    pub reasoning_id: Seq<char>,
    pub text_id: Seq<char>,
}

impl View for StreamLifecycle {
    type V = LifecycleV;

    open spec fn view(&self) -> LifecycleV {
        LifecycleV {
            state: self.state,
            reasoning_id: self.reasoning_id@,
            text_id: self.text_id@,
        }
    }
}

impl LifecycleV {
    pub open spec fn new() -> LifecycleV {
        LifecycleV {
            state: LifecycleState::Idle,
            reasoning_id: "reasoning-0"@,
            text_id: "text-0"@,
        }
    }

    pub open spec fn at(self, state: LifecycleState) -> LifecycleV {
        LifecycleV { state, ..self }
    }

    /// The events of a piece of reasoning.
    pub open spec fn reasoning_events(self, text: Seq<char>) -> Seq<EventV> {
        (if self.state != LifecycleState::Reasoning {
            seq![EventV::ReasoningStart { id: self.reasoning_id }]
        } else {
            Seq::empty()
        }).push(EventV::ReasoningDelta { id: self.reasoning_id, text })
    }

    /// The events that end the reasoning.
    pub open spec fn reasoning_end_events(self) -> Seq<EventV> {
        if self.state == LifecycleState::Reasoning {
            seq![EventV::ReasoningEnd { id: self.reasoning_id }]
        } else {
            Seq::empty()
        }
    }

    /// Where the end of the reasoning leads.
    pub open spec fn reasoning_ended(self) -> LifecycleV {
        if self.state == LifecycleState::Reasoning {
            self.at(LifecycleState::Idle)
        } else {
            self
        }
    }

    /// The events of a piece of text.
    pub open spec fn text_events(self, text: Seq<char>) -> Seq<EventV> {
        (self.reasoning_end_events() + if self.state != LifecycleState::Text {
            seq![EventV::TextStart { id: self.text_id }]
        } else {
            Seq::empty()
        }).push(EventV::TextDelta { id: self.text_id, text })
    }

    /// The events that end the text.
    pub open spec fn text_end_events(self) -> Seq<EventV> {
        if self.state == LifecycleState::Text {
            seq![EventV::TextEnd { id: self.text_id }]
        } else {
            Seq::empty()
        }
    }

    /// The events that finish the stream.
    pub open spec fn finish_events(self, reason: Seq<char>) -> Seq<EventV> {
        (self.reasoning_end_events() + self.text_end_events()).push(
            EventV::Finish { reason, usage: None },
        )
    }
}

impl StreamLifecycle {
    pub fn new() -> (r: StreamLifecycle)
        ensures
            r@ == LifecycleV::new(),
    {
        StreamLifecycle {
            state: LifecycleState::Idle,
            reasoning_id: owned("reasoning-0"),
            text_id: owned("text-0"),
        }
    }

    /// A piece of reasoning, after the start of a block where none is open.
    pub fn reasoning_delta(&mut self, out: &mut Vec<LlmEvent>, text: &str)
        ensures
            final(self)@ == old(self)@.at(LifecycleState::Reasoning),
            events(final(out)@) == events(old(out)@) + old(self)@.reasoning_events(text@),
    {
        let ghost before = events(out@);
        if self.state != LifecycleState::Reasoning {
            self.state = LifecycleState::Reasoning;
            push_event(out, LlmEvent::ReasoningStart { id: self.reasoning_id.clone() });
        }
        push_event(
            out,
            LlmEvent::ReasoningDelta { id: self.reasoning_id.clone(), text: owned(text) },
        );
        assert(events(out@) =~= before + old(self)@.reasoning_events(text@));
    }

    /// Ends the reasoning where it is open.
    pub fn reasoning_end(&mut self, out: &mut Vec<LlmEvent>)
        ensures
            final(self)@ == old(self)@.reasoning_ended(),
            events(final(out)@) == events(old(out)@) + old(self)@.reasoning_end_events(),
    {
        let ghost before = events(out@);
        if self.state == LifecycleState::Reasoning {
            push_event(out, LlmEvent::ReasoningEnd { id: self.reasoning_id.clone() });
            self.state = LifecycleState::Idle;
        }
        assert(events(out@) =~= before + old(self)@.reasoning_end_events());
    }

    /// A piece of text, after the end of the reasoning and the start of a block where none
    /// is open.
    pub fn text_delta(&mut self, out: &mut Vec<LlmEvent>, text: &str)
        ensures
            final(self)@ == old(self)@.at(LifecycleState::Text),
            events(final(out)@) == events(old(out)@) + old(self)@.text_events(text@),
    {
        let ghost before = events(out@);
        self.reasoning_end(out);
        if self.state != LifecycleState::Text {
            self.state = LifecycleState::Text;
            push_event(out, LlmEvent::TextStart { id: self.text_id.clone() });
        }
        push_event(out, LlmEvent::TextDelta { id: self.text_id.clone(), text: owned(text) });
        assert(events(out@) =~= before + old(self)@.text_events(text@));
    }

    /// Ends the text where it is open.
    pub fn text_end(&mut self, out: &mut Vec<LlmEvent>)
        ensures
            final(self)@ == (if old(self)@.state == LifecycleState::Text {
                old(self)@.at(LifecycleState::Idle)
            } else {
                old(self)@
            }),
            events(final(out)@) == events(old(out)@) + old(self)@.text_end_events(),
    {
        let ghost before = events(out@);
        if self.state == LifecycleState::Text {
            push_event(out, LlmEvent::TextEnd { id: self.text_id.clone() });
            self.state = LifecycleState::Idle;
        }
        assert(events(out@) =~= before + old(self)@.text_end_events());
    }

    /// Ends what is open, and the stream.
    pub fn finish(&mut self, out: &mut Vec<LlmEvent>, reason: &str)
        ensures
            final(self)@ == old(self)@.at(LifecycleState::Idle),
            events(final(out)@) == events(old(out)@) + old(self)@.finish_events(reason@),
    {
        let ghost before = events(out@);
        self.reasoning_end(out);
        self.text_end(out);
        push_event(out, LlmEvent::Finish { reason: owned(reason), usage: None });
        assert(events(out@) =~= before + old(self)@.finish_events(reason@));
    }
}

/// The block that is open after one more event, where the event fits the block that is open.
pub open spec fn open_step(open: Option<LifecycleState>, e: EventV) -> Option<LifecycleState> {
    let (fits, next) = match e {
        EventV::ReasoningStart { .. } => (LifecycleState::Idle, LifecycleState::Reasoning),
        EventV::ReasoningDelta { .. } => (LifecycleState::Reasoning, LifecycleState::Reasoning),
        EventV::ReasoningEnd { .. } => (LifecycleState::Reasoning, LifecycleState::Idle),
        EventV::TextStart { .. } => (LifecycleState::Idle, LifecycleState::Text),
        EventV::TextDelta { .. } => (LifecycleState::Text, LifecycleState::Text),
        EventV::TextEnd { .. } => (LifecycleState::Text, LifecycleState::Idle),
        _ => (LifecycleState::Idle, LifecycleState::Idle),
    };
    if open == Some(fits) {
        Some(next)
    } else {
        None
    }
}

/// The block that is open after the events, where each fits the block that is open at its
/// place.
pub open spec fn open_after(es: Seq<EventV>) -> Option<LifecycleState>
    decreases es.len(),
{
    if es.len() == 0 {
        Some(LifecycleState::Idle)
    } else {
        open_step(open_after(es.drop_last()), es.last())
    }
}

proof fn lemma_push(es: Seq<EventV>, e: EventV)
    ensures
        open_after(es.push(e)) == open_step(open_after(es), e),
{
    assert(es.push(e).drop_last() =~= es);
}

/// Blocks nest: no piece comes outside of its block, no block opens inside another, and the
/// end of the stream finds none open. Reasoning that follows text is left out: the text
/// block is not ended there.
pub proof fn lemma_blocks_nest(l: LifecycleV, es: Seq<EventV>, text: Seq<char>)
    requires
        open_after(es) == Some(l.state),
    ensures
        l.state != LifecycleState::Text ==> open_after(es + l.reasoning_events(text)) == Some(
            LifecycleState::Reasoning,
        ),
        open_after(es + l.reasoning_end_events()) == Some(l.reasoning_ended().state),
        open_after(es + l.text_events(text)) == Some(LifecycleState::Text),
        open_after(es + l.finish_events(text)) == Some(LifecycleState::Idle),
{
    let rs = EventV::ReasoningStart { id: l.reasoning_id };
    let rd = EventV::ReasoningDelta { id: l.reasoning_id, text };
    let re = EventV::ReasoningEnd { id: l.reasoning_id };
    let ts = EventV::TextStart { id: l.text_id };
    let td = EventV::TextDelta { id: l.text_id, text };
    let te = EventV::TextEnd { id: l.text_id };
    let fin = EventV::Finish { reason: text, usage: None };
    lemma_push(es, rs);
    lemma_push(es, rd);
    lemma_push(es.push(rs), rd);
    lemma_push(es, re);
    lemma_push(es.push(re), ts);
    lemma_push(es.push(re).push(ts), td);
    lemma_push(es, ts);
    lemma_push(es.push(ts), td);
    lemma_push(es, td);
    lemma_push(es, te);
    lemma_push(es.push(te), fin);
    lemma_push(es.push(re), fin);
    lemma_push(es, fin);
    match l.state {
        LifecycleState::Idle => {
            assert(es + l.reasoning_events(text) =~= es.push(rs).push(rd));
            assert(es + l.reasoning_end_events() =~= es);
            assert(es + l.text_events(text) =~= es.push(ts).push(td));
            assert(es + l.finish_events(text) =~= es.push(fin));
        },
        LifecycleState::Reasoning => {
            assert(es + l.reasoning_events(text) =~= es.push(rd));
            assert(es + l.reasoning_end_events() =~= es.push(re));
            assert(es + l.text_events(text) =~= es.push(re).push(ts).push(td));
            assert(es + l.finish_events(text) =~= es.push(re).push(fin));
        },
        LifecycleState::Text => {
            assert(es + l.reasoning_end_events() =~= es);
            assert(es + l.text_events(text) =~= es.push(td));
            assert(es + l.finish_events(text) =~= es.push(te).push(fin));
        },
    }
}

} // verus!
