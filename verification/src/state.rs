//! The conversation of an agent: its messages, pending tool calls, queued user
//! messages, todo list and loop detection.

use crate::bytes::{byte_len, cuts_at, is_cut};
use crate::event::Usage;
use crate::five_whys::{surprises, Surprise, SurpriseV};
use crate::internal_tools::{render_todos, rendered, todos, TodoEntry, TodoV};
use crate::json::{clone_jsons, jsons, lemma_jsons_push, obj2, obj2_v, push_field, Json, JsonV};
use crate::string_set::{position, StringSet};
use crate::text::{
    clone_strings, dec, dec_text, opt_text, owned, same, take_chars, take_text, texts,
};
use vstd::prelude::*;
use vstd::utf8::encode_utf8;

verus! {

/// A message to inject once, when the context grows beyond a threshold.
#[derive(Debug)]
pub struct ContextReminder {
    pub threshold_tokens: u64,
    pub message: String,
}

/// A message to inject at a later time; again and again where it has an interval.
#[derive(Debug)]
pub struct WakeUp {
    /// Epoch seconds from which on it is due.
    pub due: u64,
    pub interval: Option<u64>,
    pub message: String,
}

/// The model of a [`ContextReminder`].
pub struct ReminderV {
    pub threshold: u64,
    pub message: Seq<char>,
}

/// The model of a [`WakeUp`].
pub struct WakeUpV {
    pub due: u64,
    pub interval: Option<u64>,
    pub message: Seq<char>,
}

impl View for ContextReminder {
    type V = ReminderV;

    open spec fn view(&self) -> ReminderV {
        ReminderV { threshold: self.threshold_tokens, message: self.message@ }
    }
}

impl View for WakeUp {
    type V = WakeUpV;

    open spec fn view(&self) -> WakeUpV {
        WakeUpV { due: self.due, interval: self.interval, message: self.message@ }
    }
}

pub open spec fn reminders(s: Seq<ContextReminder>) -> Seq<ReminderV> {
    s.map_values(|r: ContextReminder| r@)
}

pub open spec fn wake_ups(s: Seq<WakeUp>) -> Seq<WakeUpV> {
    s.map_values(|w: WakeUp| w@)
}

/// The state of one conversation.
#[derive(Debug)]
pub struct ConversationState {
    pub messages: Vec<Json>,
    pub iteration_count: u32,
    pub pending_tool_calls: StringSet,
    pub pending_messages: Vec<String>,
    pub was_interrupted: bool,
    /// The transient todo list.
    pub todos: Vec<TodoEntry>,
    /// Reasoning streamed since the last committed message.
    pub current_reasoning: String,
    /// Text streamed since the last committed message.
    pub current_partial_response: String,
    /// The ids of the current batch of tool calls, in the order of the model.
    pub tool_call_order: Vec<String>,
    /// Whether a request to the model is under way.
    pub inference_in_flight: bool,
    /// The usage that the model last reported.
    pub last_usage: Option<Usage>,
    /// The model's context window in tokens, where it is known.
    pub context_window: Option<usize>,
    /// Hashes of recent assistant turns.
    pub recent_turn_hashes: Vec<u64>,
    /// How deep in nested subagents this conversation runs.
    pub subagent_depth: usize,
    /// The system message of a subagent, where it has its own.
    pub active_system_message: Option<String>,
    /// Incidents recorded since the last context refresh.
    pub surprises: Vec<Surprise>,
    pub context_reminders: Vec<ContextReminder>,
    pub wake_ups: Vec<WakeUp>,
}

/// The model of a [`ConversationState`].
#[verifier::ext_equal]
pub struct StateV {
    pub messages: Seq<JsonV>,
    pub iteration_count: u32,
    pub pending_tool_calls: Set<Seq<char>>,
    pub pending_messages: Seq<Seq<char>>,
    pub was_interrupted: bool,
    pub todos: Seq<TodoV>,
    pub reasoning: Seq<char>,
    pub partial: Seq<char>,
    pub tool_call_order: Seq<Seq<char>>,
    pub in_flight: bool,
    pub last_usage: Option<Usage>,
    pub context_window: Option<usize>,
    pub hashes: Seq<u64>,
    pub depth: usize,
    pub active_system: Option<Seq<char>>,
    pub surprises: Seq<SurpriseV>,
    pub reminders: Seq<ReminderV>,
    pub wake_ups: Seq<WakeUpV>,
}

impl View for ConversationState {
    type V = StateV;

    open spec fn view(&self) -> StateV {
        StateV {
            messages: jsons(self.messages@),
            iteration_count: self.iteration_count,
            pending_tool_calls: self.pending_tool_calls@,
            pending_messages: texts(self.pending_messages@),
            was_interrupted: self.was_interrupted,
            todos: todos(self.todos@),
            reasoning: self.current_reasoning@,
            partial: self.current_partial_response@,
            tool_call_order: texts(self.tool_call_order@),
            in_flight: self.inference_in_flight,
            last_usage: self.last_usage,
            context_window: self.context_window,
            hashes: self.recent_turn_hashes@,
            depth: self.subagent_depth,
            active_system: opt_text(self.active_system_message),
            surprises: surprises(self.surprises@),
            reminders: reminders(self.context_reminders@),
            wake_ups: wake_ups(self.wake_ups@),
        }
    }
}

// ---- messages

pub open spec fn user_msg(content: Seq<char>) -> JsonV {
    obj2_v("role"@, JsonV::Str("user"@), "content"@, JsonV::Str(content))
}

pub open spec fn system_msg(content: Seq<char>) -> JsonV {
    obj2_v("role"@, JsonV::Str("system"@), "content"@, JsonV::Str(content))
}

/// `m` with the text `v` under `k`, where there is any text.
pub open spec fn set_text(m: JsonV, k: Seq<char>, v: Seq<char>) -> JsonV {
    if v.len() == 0 {
        m
    } else {
        m.set(k, JsonV::Str(v))
    }
}

pub open spec fn assistant_msg(content: Seq<char>, reasoning: Seq<char>) -> JsonV {
    set_text(
        obj2_v("role"@, JsonV::Str("assistant"@), "content"@, JsonV::Str(content)),
        "reasoning"@,
        reasoning,
    )
}

pub open spec fn tool_calls_msg(
    calls: Seq<JsonV>,
    content: Seq<char>,
    reasoning: Seq<char>,
) -> JsonV {
    set_text(
        set_text(
            obj2_v("role"@, JsonV::Str("assistant"@), "tool_calls"@, JsonV::Array(calls)),
            "content"@,
            content,
        ),
        "reasoning"@,
        reasoning,
    )
}

pub open spec fn tool_msg(
    id: Seq<char>,
    name: Seq<char>,
    content: Seq<char>,
    success: bool,
) -> JsonV {
    JsonV::Object(
        seq![
            ("role"@, JsonV::Str("tool"@)),
            ("tool_call_id"@, JsonV::Str(id)),
            ("name"@, JsonV::Str(name)),
            (
                "content"@,
                JsonV::Str(
                    if success {
                        content
                    } else {
                        "Error: "@ + content
                    },
                ),
            ),
        ],
    )
}

/// Whether the message has the given role.
pub open spec fn has_role(m: JsonV, role: Seq<char>) -> bool {
    m.str_at("role"@) == Some(role)
}

/// The id of the `i`-th call of a batch; one is made up where the call has none.
pub open spec fn call_id(i: int, tc: JsonV) -> Seq<char> {
    let id = tc.str_or("id"@, Seq::empty());
    if id.len() == 0 {
        "__idx_"@ + dec(i)
    } else {
        id
    }
}

/// The ids of a batch of calls.
pub open spec fn call_ids(calls: Seq<JsonV>) -> Seq<Seq<char>> {
    Seq::new(calls.len(), |i: int| call_id(i, calls[i]))
}

/// The message as it is sent to the model: without its reasoning.
pub open spec fn outgoing(m: JsonV) -> JsonV {
    m.remove("reasoning"@)
}

/// The position of `id` in `order`, if it stands there.
pub open spec fn rank(order: Seq<Seq<char>>, m: JsonV) -> Option<int> {
    order.index_of_first(m.str_or("tool_call_id"@, Seq::empty()))
}

/// The messages of `s` that answer the call at position `k`.
pub open spec fn ranked(s: Seq<JsonV>, order: Seq<Seq<char>>, k: int) -> Seq<JsonV> {
    s.filter(|m: JsonV| rank(order, m) == Some(k))
}

/// The messages of `s` that answer no call of the batch.
pub open spec fn unranked(s: Seq<JsonV>, order: Seq<Seq<char>>) -> Seq<JsonV> {
    s.filter(|m: JsonV| rank(order, m) is None)
}

/// The messages of `s` that answer the first `k` calls, call by call.
pub open spec fn in_order(s: Seq<JsonV>, order: Seq<Seq<char>>, k: int) -> Seq<JsonV>
    decreases k,
{
    if k <= 0 {
        Seq::empty()
    } else {
        in_order(s, order, k - 1) + ranked(s, order, k - 1)
    }
}

/// The results of a batch in the order of its calls; what answers none comes last.
pub open spec fn reordered(s: Seq<JsonV>, order: Seq<Seq<char>>) -> Seq<JsonV> {
    in_order(s, order, order.len() as int) + unranked(s, order)
}

// ---- loop detection

/// One step of FNV-1a.
pub open spec fn fnv_step(h: u64, b: u8) -> u64 {
    (h ^ (b as u64)).wrapping_mul(0x100000001b3)
}

/// The FNV-1a hash of the first `n` bytes.
pub open spec fn fnv(s: Seq<u8>, n: int) -> u64
    decreases n,
{
    if n <= 0 {
        0xcbf29ce484222325
    } else {
        fnv_step(fnv(s, n - 1), s[n - 1])
    }
}

/// The last `n` bytes of `s`, or all of them.
pub open spec fn last_bytes(s: Seq<u8>, n: int) -> Seq<u8> {
    if s.len() > n {
        s.skip(s.len() - n)
    } else {
        s
    }
}

/// The first `n` bytes of `s`, or all of them.
pub open spec fn first_bytes(s: Seq<u8>, n: int) -> Seq<u8> {
    if s.len() > n {
        s.take(n)
    } else {
        s
    }
}

pub open spec fn call_name(tc: JsonV) -> Seq<char> {
    tc.at("function"@).str_or("name"@, Seq::empty())
}

pub open spec fn call_args(tc: JsonV) -> Seq<char> {
    tc.at("function"@).str_or("arguments"@, Seq::empty())
}

/// The names and the first bytes of the arguments of the first `n` calls.
pub open spec fn calls_signature(calls: Seq<JsonV>, n: int) -> Seq<u8>
    decreases n,
{
    if n <= 0 {
        Seq::empty()
    } else {
        calls_signature(calls, n - 1) + encode_utf8(call_name(calls[n - 1])) + first_bytes(
            encode_utf8(call_args(calls[n - 1])),
            200,
        )
    }
}

/// The calls of an assistant message.
pub open spec fn calls_of(m: JsonV) -> Seq<JsonV> {
    match m.at("tool_calls"@).as_array() {
        Some(a) => a,
        None => Seq::empty(),
    }
}

/// What a turn did: the end of its reasoning and its tool calls.
pub open spec fn work_signature(m: JsonV) -> Seq<u8> {
    last_bytes(encode_utf8(m.str_or("reasoning"@, Seq::empty())), 1000) + calls_signature(
        calls_of(m),
        calls_of(m).len() as int,
    )
}

/// What identifies a turn: what it did, or else the start of its text.
pub open spec fn signature(m: JsonV) -> Seq<u8> {
    if work_signature(m).len() == 0 {
        first_bytes(encode_utf8(m.str_or("content"@, Seq::empty())), 200)
    } else {
        work_signature(m)
    }
}

/// Whether the text has at most `n` bytes or can be cut `n` bytes from its start.
pub open spec fn head_cuts(s: Seq<char>, n: int) -> bool {
    byte_len(s) <= n || cuts_at(s, n)
}

/// Whether the text has at most `n` bytes or can be cut `n` bytes from its end.
pub open spec fn tail_cuts(s: Seq<char>, n: int) -> bool {
    byte_len(s) <= n || cuts_at(s, byte_len(s) - n)
}

/// Whether the texts that make up the signature of `m` can be cut where it cuts them.
pub open spec fn signature_cuts(m: JsonV) -> bool {
    &&& tail_cuts(m.str_or("reasoning"@, Seq::empty()), 1000)
    &&& forall|i: int|
        0 <= i < calls_of(m).len() ==> head_cuts(call_args(#[trigger] calls_of(m)[i]), 200)
    &&& work_signature(m).len() == 0 ==> head_cuts(m.str_or("content"@, Seq::empty()), 200)
}

/// The last of the first `n` messages that has the given role.
pub open spec fn last_with_role(ms: Seq<JsonV>, role: Seq<char>, n: int) -> Option<JsonV>
    decreases n,
{
    if n <= 0 {
        None
    } else if has_role(ms[n - 1], role) {
        Some(ms[n - 1])
    } else {
        last_with_role(ms, role, n - 1)
    }
}

/// How many of the first `n` hashes, from the last back, are `h` without a break.
pub open spec fn trailing(s: Seq<u64>, h: u64, n: int) -> int
    decreases n,
{
    if n <= 0 || s[n - 1] != h {
        0
    } else {
        1 + trailing(s, h, n - 1)
    }
}

/// How often the last turn repeats at the end.
pub open spec fn streak(s: Seq<u64>) -> int {
    if s.len() == 0 {
        0
    } else {
        trailing(s, s.last(), s.len() as int)
    }
}

/// The hashes with one more, of which only the last ten stay.
pub open spec fn push_hash(s: Seq<u64>, h: u64) -> Seq<u64> {
    if s.len() >= 10 {
        s.push(h).skip(s.len() - 9)
    } else {
        s.push(h)
    }
}

/// The positions of the assistant messages among the first `n`.
pub open spec fn assistant_positions(ms: Seq<JsonV>, n: int) -> Seq<int>
    decreases n,
{
    if n <= 0 {
        Seq::empty()
    } else if has_role(ms[n - 1], "assistant"@) {
        assistant_positions(ms, n - 1).push(n - 1)
    } else {
        assistant_positions(ms, n - 1)
    }
}

/// What `format!("{:?}")` writes of a text.
pub uninterp spec fn quoted(s: Seq<char>) -> Seq<char>;

/// The note that stands in for compacted turns.
pub open spec fn compaction_note(n: int, snippet: Seq<char>) -> Seq<char> {
    "[context note: "@ + dec(n)
        + " duplicate turn-cycles were compacted from history because they repeated the same approach without progress. Do not re-attempt the same approach. Compacted reasoning snippet for reference: "@
        + quoted(snippet) + "]"@
}

impl StateV {
    pub open spec fn add_user(self, content: Seq<char>) -> StateV {
        StateV {
            reasoning: Seq::empty(),
            messages: self.messages.push(user_msg(content)),
            ..self
        }
    }

    /// Adds to the last message where that is a user's text, else adds a message.
    pub open spec fn merge_user(self, content: Seq<char>) -> StateV {
        let ms = self.messages;
        if ms.len() > 0 && has_role(ms.last(), "user"@) && ms.last().str_at("content"@) is Some {
            StateV {
                reasoning: Seq::empty(),
                messages: ms.update(
                    ms.len() - 1,
                    ms.last().set(
                        "content"@,
                        JsonV::Str(ms.last().str_at("content"@)->0 + "\n"@ + content),
                    ),
                ),
                ..self
            }
        } else {
            self.add_user(content)
        }
    }

    pub open spec fn add_assistant(self, content: Seq<char>) -> StateV {
        StateV {
            messages: self.messages.push(assistant_msg(content, self.reasoning)),
            reasoning: Seq::empty(),
            partial: Seq::empty(),
            ..self
        }
    }

    pub open spec fn add_tool_calls(self, calls: Seq<JsonV>) -> StateV {
        StateV {
            messages: self.messages.push(tool_calls_msg(calls, self.partial, self.reasoning)),
            reasoning: Seq::empty(),
            partial: Seq::empty(),
            tool_call_order: call_ids(calls),
            pending_tool_calls: self.pending_tool_calls.union(call_ids(calls).to_set()),
            ..self
        }
    }

    pub open spec fn add_tool_result(
        self,
        id: Seq<char>,
        name: Seq<char>,
        content: Seq<char>,
        success: bool,
    ) -> StateV {
        StateV { messages: self.messages.push(tool_msg(id, name, content, success)), ..self }
    }

    /// Puts the last results, one for each call of the batch, into the order of the calls.
    pub open spec fn reorder(self) -> StateV {
        let n = self.tool_call_order.len();
        let cut = self.messages.len() - n;
        if n == 0 || cut < 0 {
            StateV { tool_call_order: Seq::empty(), ..self }
        } else {
            StateV {
                messages: self.messages.take(cut) + reordered(
                    self.messages.skip(cut),
                    self.tool_call_order,
                ),
                tool_call_order: Seq::empty(),
                ..self
            }
        }
    }

    pub open spec fn all_resolved(self) -> bool {
        self.pending_tool_calls == Set::<Seq<char>>::empty()
    }

    pub open spec fn resolve(self, id: Seq<char>) -> StateV {
        let next = StateV { pending_tool_calls: self.pending_tool_calls.remove(id), ..self };
        if next.all_resolved() && self.tool_call_order.len() > 0 {
            next.reorder()
        } else {
            next
        }
    }

    /// The last assistant message.
    pub open spec fn last_turn(self) -> Option<JsonV> {
        last_with_role(self.messages, "assistant"@, self.messages.len() as int)
    }

    /// Whether the last turn can be given a signature.
    pub open spec fn turn_cuts(self) -> bool {
        self.last_turn() matches Some(m) ==> signature_cuts(m)
    }

    pub open spec fn record_turn(self) -> StateV {
        match self.last_turn() {
            None => self,
            Some(m) => StateV {
                hashes: push_hash(self.hashes, fnv(signature(m), signature(m).len() as int)),
                ..self
            },
        }
    }

    /// How often the last turn stands at the end, once it is recorded; 0 where there is none,
    /// or where it does not repeat the turn before it.
    pub open spec fn turn_streak(self) -> int {
        let n = streak(self.record_turn().hashes);
        if self.last_turn() is None || n < 2 {
            0
        } else {
            n
        }
    }

    /// Whether the end of the conversation is a loop to collapse.
    pub open spec fn loops(self) -> bool {
        &&& self.hashes.len() >= 3
        &&& streak(self.hashes) >= 3
        &&& assistant_positions(self.messages, self.messages.len() as int).len() >= streak(
            self.hashes,
        )
    }

    /// The range of messages that a collapse removes.
    pub open spec fn loop_range(self) -> (int, int) {
        let p = assistant_positions(self.messages, self.messages.len() as int);
        (p[p.len() - streak(self.hashes)], p.last())
    }

    /// The conversation with the repeated turns but the last replaced by one note of the
    /// system.
    pub open spec fn collapse(self) -> StateV {
        if !self.loops() {
            self
        } else {
            let (from, to) = self.loop_range();
            let n = streak(self.hashes) - 1;
            let snippet = take_chars(self.messages[from].str_or("reasoning"@, Seq::empty()), 300);
            StateV {
                messages: self.messages.take(from).push(system_msg(compaction_note(n, snippet)))
                    + self.messages.skip(to),
                hashes: Seq::empty(),
                ..self
            }
        }
    }

    /// How many messages a collapse removes.
    pub open spec fn collapse_count(self) -> int {
        if self.loops() {
            self.loop_range().1 - self.loop_range().0
        } else {
            0
        }
    }

    /// The tokens that are left in the context window; nothing where the window or the usage
    /// is unknown, or where more was used than the window holds.
    pub open spec fn context_remaining(self) -> Option<u64> {
        match (self.context_window, self.known_input_tokens()) {
            (Some(w), Some(used)) => if used <= w {
                Some((w - used) as u64)
            } else {
                None
            },
            _ => None,
        }
    }

    /// The input tokens of the last turn, where they are known.
    pub open spec fn known_input_tokens(self) -> Option<u64> {
        match self.last_usage {
            Some(u) => u.input_tokens,
            None => None,
        }
    }

    /// The input tokens of the last turn, or 0.
    pub open spec fn input_tokens(self) -> u64 {
        match self.last_usage {
            Some(u) => match u.input_tokens {
                Some(n) => n,
                None => 0,
            },
            None => 0,
        }
    }

    /// One line on the use of the context; `percent` is the share that is used.
    pub open spec fn status_line(self, percent: Seq<char>) -> Seq<char> {
        match self.last_usage {
            None => "context: no usage reported yet"@,
            Some(_) => match self.context_remaining() {
                Some(rem) => "context: "@ + dec(self.input_tokens() as int) + "/"@ + dec(
                    self.context_window->0 as int,
                ) + " tokens used ("@ + percent + "%), "@ + dec(rem as int) + " remaining"@,
                None => "context: "@ + dec(self.input_tokens() as int)
                    + " input tokens used (window unknown)"@,
            },
        }
    }

    pub open spec fn record_usage(self, usage: Usage, window: Option<usize>) -> StateV {
        StateV {
            last_usage: Some(usage),
            context_window: if window is Some {
                window
            } else {
                self.context_window
            },
            ..self
        }
    }

    pub open spec fn clear_for_restart(self) -> StateV {
        StateV {
            messages: Seq::empty(),
            todos: Seq::empty(),
            pending_tool_calls: Set::empty(),
            pending_messages: Seq::empty(),
            iteration_count: 0,
            was_interrupted: false,
            reasoning: Seq::empty(),
            partial: Seq::empty(),
            tool_call_order: Seq::empty(),
            in_flight: false,
            ..self
        }
    }

    /// The messages as they are sent to the model.
    pub open spec fn sent_with(self, system: Seq<char>) -> Seq<JsonV> {
        let body = self.messages.map_values(|m: JsonV| outgoing(m));
        if system.len() == 0 {
            body
        } else {
            seq![system_msg(system)] + body
        }
    }

    /// Whether nothing is under way: no tool call pending, no request in flight.
    pub open spec fn idle(self) -> bool {
        self.all_resolved() && !self.in_flight
    }
}

/// `format!("{:?}")` of a text: the result depends on the text alone.
#[verifier::external_body]
fn quote(s: &str) -> (r: String)
    ensures
        r@ == quoted(s@),
{
    format!("{:?}", s)
}

impl ConversationState {
    /// The empty conversation.
    pub fn new() -> (r: ConversationState)
        ensures
            r@ == (StateV {
                messages: Seq::empty(),
                iteration_count: 0,
                pending_tool_calls: Set::empty(),
                pending_messages: Seq::empty(),
                was_interrupted: false,
                todos: Seq::empty(),
                reasoning: Seq::empty(),
                partial: Seq::empty(),
                tool_call_order: Seq::empty(),
                in_flight: false,
                last_usage: None,
                context_window: None,
                hashes: Seq::empty(),
                depth: 0,
                active_system: None,
                surprises: Seq::empty(),
                reminders: Seq::empty(),
                wake_ups: Seq::empty(),
            }),
    {
        let r = ConversationState {
            messages: Vec::new(),
            iteration_count: 0,
            pending_tool_calls: StringSet::new(),
            pending_messages: Vec::new(),
            was_interrupted: false,
            todos: Vec::new(),
            current_reasoning: String::new(),
            current_partial_response: String::new(),
            tool_call_order: Vec::new(),
            inference_in_flight: false,
            last_usage: None,
            context_window: None,
            recent_turn_hashes: Vec::new(),
            subagent_depth: 0,
            active_system_message: None,
            surprises: Vec::new(),
            context_reminders: Vec::new(),
            wake_ups: Vec::new(),
        };
        proof {
            assert(jsons(r.messages@) =~= Seq::empty());
            assert(texts(r.pending_messages@) =~= Seq::empty());
            assert(todos(r.todos@) =~= Seq::empty());
            assert(texts(r.tool_call_order@) =~= Seq::empty());
            assert(surprises(r.surprises@) =~= Seq::empty());
            assert(reminders(r.context_reminders@) =~= Seq::empty());
            assert(wake_ups(r.wake_ups@) =~= Seq::empty());
        }
        r
    }

    /// Appends a message.
    fn push_message(&mut self, m: Json)
        ensures
            final(self)@ == (StateV { messages: old(self)@.messages.push(m@), ..old(self)@ }),
    {
        proof {
            lemma_jsons_push(self.messages@, m);
        }
        self.messages.push(m);
    }

    pub fn add_user_message(&mut self, content: &str)
        ensures
            final(self)@ == old(self)@.add_user(content@),
    {
        self.current_reasoning = String::new();
        self.push_message(obj2("role", Json::text("user"), "content", Json::text(content)));
    }

    /// Adds to the last message where that is a user's text, on a new line; else adds a
    /// message of its own. After an interrupt this avoids two user messages in a row.
    pub fn merge_user_message(&mut self, content: &str)
        ensures
            final(self)@ == old(self)@.merge_user(content@),
    {
        let n: usize = self.messages.len();
        if n > 0 && same(self.messages[n - 1].str_or("role", ""), "user") {
            proof {
                reveal_strlit("");
                reveal_strlit("user");
                assert(""@.len() != "user"@.len());
            }
            if let Some(existing) = self.messages[n - 1].str_at("content") {
                let mut text = owned(existing);
                text.append("\n");
                text.append(content);
                self.current_reasoning = String::new();
                let mut last = self.messages[n - 1].clone();
                last.set("content", Json::Str(text));
                let ghost before = self.messages@;
                self.messages.set(n - 1, last);
                assert(jsons(self.messages@) =~= jsons(before).update(n - 1, last@));
                return ;
            }
        }
        proof {
            reveal_strlit("");
            reveal_strlit("user");
            assert(""@.len() != "user"@.len());
        }
        self.add_user_message(content);
    }

    pub fn append_reasoning(&mut self, chunk: &str)
        ensures
            final(self)@ == (StateV { reasoning: old(self)@.reasoning + chunk@, ..old(self)@ }),
    {
        self.current_reasoning.append(chunk);
    }

    pub fn append_partial_response(&mut self, chunk: &str)
        ensures
            final(self)@ == (StateV { partial: old(self)@.partial + chunk@, ..old(self)@ }),
    {
        self.current_partial_response.append(chunk);
    }

    /// Takes the streamed text, if there is any.
    pub fn drain_partial_response(&mut self) -> (r: Option<String>)
        ensures
            final(self)@ == (StateV { partial: Seq::empty(), ..old(self)@ }),
            match r {
                Some(s) => s@ == old(self)@.partial && s@.len() > 0,
                None => old(self)@.partial.len() == 0,
            },
    {
        if self.current_partial_response.as_str().is_empty() {
            assert(self@.partial =~= Seq::empty());
            None
        } else {
            let mut out = String::new();
            std::mem::swap(&mut out, &mut self.current_partial_response);
            Some(out)
        }
    }

    /// Takes the streamed reasoning, if there is any.
    fn drain_reasoning(&mut self) -> (r: Option<String>)
        ensures
            final(self)@ == (StateV { reasoning: Seq::empty(), ..old(self)@ }),
            match r {
                Some(s) => s@ == old(self)@.reasoning && s@.len() > 0,
                None => old(self)@.reasoning.len() == 0,
            },
    {
        if self.current_reasoning.as_str().is_empty() {
            assert(self@.reasoning =~= Seq::empty());
            None
        } else {
            let mut out = String::new();
            std::mem::swap(&mut out, &mut self.current_reasoning);
            Some(out)
        }
    }

    pub fn clear_reasoning(&mut self)
        ensures
            final(self)@ == (StateV { reasoning: Seq::empty(), ..old(self)@ }),
    {
        self.current_reasoning = String::new();
    }

    pub fn clear_partial_response(&mut self)
        ensures
            final(self)@ == (StateV { partial: Seq::empty(), ..old(self)@ }),
    {
        self.current_partial_response = String::new();
    }

    /// Commits a text of the assistant, with the reasoning that was streamed before it.
    pub fn add_assistant_message(&mut self, content: &str)
        ensures
            final(self)@ == old(self)@.add_assistant(content@),
    {
        let reasoning = self.drain_reasoning();
        self.clear_partial_response();
        let mut msg = obj2("role", Json::text("assistant"), "content", Json::text(content));
        if let Some(r) = reasoning {
            msg.set("reasoning", Json::Str(r));
        }
        self.push_message(msg);
    }

    /// Commits a batch of tool calls, with the text and the reasoning that were streamed
    /// before them; each call is pending from now on.
    pub fn add_tool_calls(&mut self, tool_calls: Vec<Json>)
        ensures
            final(self)@ == old(self)@.add_tool_calls(jsons(tool_calls@)),
    {
        let ghost start = self@;
        let ghost calls = jsons(tool_calls@);
        let reasoning = self.drain_reasoning();
        let content = self.drain_partial_response();
        let order = batch_ids(&tool_calls);
        let mut i: usize = 0;
        assert(call_ids(calls).take(0).to_set() =~= Set::empty());
        assert(start.pending_tool_calls.union(Set::empty()) =~= start.pending_tool_calls);
        while i < order.len()
            invariant
                i <= order@.len(),
                texts(order@) == call_ids(calls),
                self@ == (StateV {
                    reasoning: Seq::empty(),
                    partial: Seq::empty(),
                    pending_tool_calls: start.pending_tool_calls.union(
                        call_ids(calls).take(i as int).to_set(),
                    ),
                    ..start
                }),
            decreases order.len() - i,
        {
            let fresh = self.pending_tool_calls.insert(order[i].as_str());
            proof {
                lemma_take_set(call_ids(calls), i as int);
                assert(texts(order@)[i as int] == order@[i as int]@);
                assert(start.pending_tool_calls.union(
                    call_ids(calls).take(i as int).to_set(),
                ).insert(call_ids(calls)[i as int]) =~= start.pending_tool_calls.union(
                    call_ids(calls).take(i + 1).to_set(),
                ));
            }
            i = i + 1;
        }
        assert(call_ids(calls).take(order@.len() as int) =~= call_ids(calls));
        self.tool_call_order = order;
        let mut msg = obj2(
            "role",
            Json::text("assistant"),
            "tool_calls",
            Json::array(tool_calls),
        );
        if let Some(c) = content {
            msg.set("content", Json::Str(c));
        }
        if let Some(r) = reasoning {
            msg.set("reasoning", Json::Str(r));
        }
        self.push_message(msg);
    }

    /// Appends the result of a tool call; a failure is marked as an error.
    pub fn add_tool_result(&mut self, tool_call_id: &str, name: &str, content: &str, success: bool)
        ensures
            final(self)@ == old(self)@.add_tool_result(tool_call_id@, name@, content@, success),
    {
        let text = if success {
            owned(content)
        } else {
            let mut t = owned("Error: ");
            t.append(content);
            t
        };
        let mut o: Vec<(String, Json)> = Vec::new();
        assert(crate::json::fields(o@) =~= Seq::empty());
        push_field(&mut o, "role", Json::text("tool"));
        push_field(&mut o, "tool_call_id", Json::text(tool_call_id));
        push_field(&mut o, "name", Json::text(name));
        push_field(&mut o, "content", Json::Str(text));
        let msg = crate::json::object_of(o);
        assert(msg@ == tool_msg(tool_call_id@, name@, content@, success)) by {
            assert(msg@->Object_0 =~= tool_msg(
                tool_call_id@,
                name@,
                content@,
                success,
            )->Object_0);
        }
        self.push_message(msg);
    }

    pub fn all_tool_calls_resolved(&self) -> (r: bool)
        ensures
            r == self@.all_resolved(),
    {
        self.pending_tool_calls.is_empty()
    }
}

proof fn lemma_take_set(s: Seq<Seq<char>>, i: int)
    requires
        0 <= i < s.len(),
    ensures
        s.take(i + 1).to_set() == s.take(i).to_set().insert(s[i]),
{
    let a = s.take(i + 1);
    let b = s.take(i);
    assert forall|x: Seq<char>| a.to_set().contains(x) == b.to_set().insert(s[i]).contains(x) by {
        if a.contains(x) {
            let j = choose|j: int| 0 <= j < a.len() && a[j] == x;
            if j < i {
                assert(b[j] == x);
            }
        }
        if b.contains(x) {
            let j = choose|j: int| 0 <= j < b.len() && b[j] == x;
            assert(a[j] == x);
        }
        if x == s[i] {
            assert(a[i] == x);
        }
    }
    assert(a.to_set() =~= b.to_set().insert(s[i]));
}

/// The id of the `i`-th call of a batch.
pub fn id_of_call(i: usize, tc: &Json) -> (r: String)
    ensures
        r@ == call_id(i as int, tc@),
{
    proof {
        reveal_strlit("");
        assert(""@ =~= Seq::empty());
    }
    let id = tc.str_or("id", "");
    if id.is_empty() {
        let mut out = owned("__idx_");
        out.append(dec_text(i as u64).as_str());
        out
    } else {
        owned(id)
    }
}

/// The ids of a batch of calls.
fn batch_ids(calls: &Vec<Json>) -> (r: Vec<String>)
    ensures
        texts(r@) == call_ids(jsons(calls@)),
        r@.len() == calls@.len(),
{
    let mut out: Vec<String> = Vec::new();
    for i in 0..calls.len()
        invariant
            out@.len() == i,
            forall|j: int| 0 <= j < i ==> (#[trigger] out@[j])@ == call_id(j, calls@[j]@),
    {
        out.push(id_of_call(i, &calls[i]));
    }
    assert(texts(out@) =~= call_ids(jsons(calls@)));
    out
}

/// The position of the call that a result answers.
fn rank_of(order: &Vec<String>, m: &Json) -> (r: Option<usize>)
    ensures
        match r {
            Some(i) => rank(texts(order@), m@) == Some(i as int),
            None => rank(texts(order@), m@) is None,
        },
{
    proof {
        reveal_strlit("");
        assert(""@ =~= Seq::empty());
    }
    let id = m.str_or("tool_call_id", "");
    let r = position(order, id);
    proof {
        let o = texts(order@);
        o.index_of_first_ensures(id@);
        match r {
            Some(i) => {
                assert(o[i as int] == id@);
                let k = o.index_of_first(id@)->0;
                assert(o.contains(id@));
                assert(order@[k]@ == id@);
                if k < i {
                    assert(order@[k]@ != id@);
                }
                if i < k {
                    assert(o[i as int] == id@);
                }
            },
            None => {
                if o.contains(id@) {
                    let j = choose|j: int| 0 <= j < o.len() && o[j] == id@;
                    assert(order@[j]@ != id@);
                }
            },
        }
    }
    r
}

/// Appends to `out` the results that answer the call at position `k`, or none at all.
fn push_ranked(out: &mut Vec<Json>, results: &Vec<Json>, order: &Vec<String>, k: Option<usize>)
    ensures
        jsons(final(out)@) == jsons(old(out)@) + match k {
            Some(i) => ranked(jsons(results@), texts(order@), i as int),
            None => unranked(jsons(results@), texts(order@)),
        },
{
    let ghost start = jsons(out@);
    let ghost o = texts(order@);
    let ghost want = match k {
        Some(i) => Some(i as int),
        None => None::<int>,
    };
    let ghost p = |m: JsonV| rank(o, m) == want;
    let ghost all = jsons(results@);
    let mut i: usize = 0;
    proof {
        assert(all.take(0) =~= Seq::empty());
        assert(all.take(0).filter(p) =~= Seq::empty()) by {
            reveal(Seq::filter);
        }
        assert(start + all.take(0).filter(p) =~= start);
    }
    while i < results.len()
        invariant
            i <= results@.len(),
            all == jsons(results@),
            o == texts(order@),
            want == (match k {
                Some(i) => Some(i as int),
                None => None::<int>,
            }),
            p == (|m: JsonV| rank(o, m) == want),
            jsons(out@) == start + all.take(i as int).filter(p),
        decreases results.len() - i,
    {
        let hit = match (rank_of(order, &results[i]), k) {
            (Some(a), Some(b)) => a == b,
            (None, None) => true,
            _ => false,
        };
        proof {
            let next = all.take(i + 1);
            assert(next.drop_last() =~= all.take(i as int));
            assert(next.last() == results@[i as int]@);
            reveal(Seq::filter);
        }
        if hit {
            let copy = results[i].clone();
            proof {
                lemma_jsons_push(out@, copy);
                assert(p(copy@));
                assert(start + all.take(i as int).filter(p).push(copy@) =~= (start + all.take(
                    i as int,
                ).filter(p)).push(copy@));
            }
            out.push(copy);
        }
        i = i + 1;
    }
    proof {
        assert(all.take(results@.len() as int) =~= all);
        match k {
            Some(i) => {
                let q = |m: JsonV| rank(o, m) == Some(i as int);
                assert(p =~= q);
            },
            None => {
                let q = |m: JsonV| rank(o, m) is None;
                assert(p =~= q);
            },
        }
    }
}

/// The results of a batch in the order of its calls.
fn order_results(results: &Vec<Json>, order: &Vec<String>) -> (r: Vec<Json>)
    ensures
        jsons(r@) == reordered(jsons(results@), texts(order@)),
{
    let mut out: Vec<Json> = Vec::new();
    assert(jsons(out@) =~= Seq::empty());
    for k in 0..order.len()
        invariant
            jsons(out@) == in_order(jsons(results@), texts(order@), k as int),
    {
        push_ranked(&mut out, results, order, Some(k));
    }
    push_ranked(&mut out, results, order, None);
    out
}

/// The messages from `from` on, without their reasoning.
fn strip_reasoning(out: &mut Vec<Json>, messages: &Vec<Json>)
    ensures
        jsons(final(out)@) == jsons(old(out)@) + jsons(messages@).map_values(
            |m: JsonV| outgoing(m),
        ),
{
    let ghost start = jsons(out@);
    let ghost all = jsons(messages@).map_values(|m: JsonV| outgoing(m));
    let mut i: usize = 0;
    assert(start + all.take(0) =~= start);
    while i < messages.len()
        invariant
            i <= messages@.len(),
            all == jsons(messages@).map_values(|m: JsonV| outgoing(m)),
            jsons(out@) == start + all.take(i as int),
        decreases messages.len() - i,
    {
        let mut m = messages[i].clone();
        m.remove("reasoning");
        proof {
            lemma_jsons_push(out@, m);
            assert(start + all.take(i + 1) =~= (start + all.take(i as int)).push(m@));
        }
        out.push(m);
        i = i + 1;
    }
    assert(all.take(messages@.len() as int) =~= all);
}

/// The bytes of a text.
fn utf8(s: &str) -> (r: Vec<u8>)
    ensures
        r@ == encode_utf8(s@),
{
    s.as_bytes_vec()
}

/// Appends `v[from..to]`.
fn push_bytes(out: &mut Vec<u8>, v: &Vec<u8>, from: usize, to: usize)
    requires
        from <= to <= v@.len(),
    ensures
        final(out)@ == old(out)@ + v@.subrange(from as int, to as int),
{
    let ghost start = out@;
    let mut i: usize = from;
    assert(start + v@.subrange(from as int, from as int) =~= start);
    while i < to
        invariant
            from <= i <= to <= v@.len(),
            out@ == start + v@.subrange(from as int, i as int),
        decreases to - i,
    {
        out.push(v[i]);
        i = i + 1;
        assert(start + v@.subrange(from as int, i as int) =~= (start + v@.subrange(
            from as int,
            i - 1,
        )).push(v@[i - 1]));
    }
}

/// Appends the first `n` bytes of a text.
fn push_head(out: &mut Vec<u8>, s: &str, n: usize)
    ensures
        final(out)@ == old(out)@ + first_bytes(encode_utf8(s@), n as int),
{
    let b = utf8(s);
    let to: usize = if b.len() > n {
        n
    } else {
        b.len()
    };
    push_bytes(out, &b, 0, to);
    assert(b@.subrange(0, to as int) =~= first_bytes(b@, n as int));
}

/// Appends the last `n` bytes of a text.
fn push_tail(out: &mut Vec<u8>, s: &str, n: usize)
    ensures
        final(out)@ == old(out)@ + last_bytes(encode_utf8(s@), n as int),
{
    let b = utf8(s);
    let from: usize = if b.len() > n {
        b.len() - n
    } else {
        0
    };
    push_bytes(out, &b, from, b.len());
    assert(b@.subrange(from as int, b@.len() as int) =~= last_bytes(b@, n as int));
}

/// The FNV-1a hash of `b`.
fn hash_bytes(b: &Vec<u8>) -> (r: u64)
    ensures
        r == fnv(b@, b@.len() as int),
{
    let mut h: u64 = 0xcbf29ce484222325;
    for i in 0..b.len()
        invariant
            h == fnv(b@, i as int),
    {
        h = (h ^ (b[i] as u64)).wrapping_mul(0x100000001b3);
    }
    h
}

/// The name of the function that a call calls.
pub fn name_of_call(tc: &Json) -> (r: &str)
    ensures
        r@ == call_name(tc@),
{
    proof {
        reveal_strlit("");
        assert(""@ =~= Seq::empty());
    }
    match tc.get("function") {
        Some(f) => f.str_or("name", ""),
        None => "",
    }
}

/// The arguments of a call, where they are a text.
pub fn args_of_call(tc: &Json) -> (r: &str)
    ensures
        r@ == call_args(tc@),
{
    proof {
        reveal_strlit("");
        assert(""@ =~= Seq::empty());
    }
    match tc.get("function") {
        Some(f) => f.str_or("arguments", ""),
        None => "",
    }
}

/// What a turn did.
fn turn_work(m: &Json) -> (r: Vec<u8>)
    ensures
        r@ == work_signature(m@),
{
    proof {
        reveal_strlit("");
        assert(""@ =~= Seq::empty());
    }
    let mut sig: Vec<u8> = Vec::new();
    push_tail(&mut sig, m.str_or("reasoning", ""), 1000);
    let ghost head = last_bytes(encode_utf8(m@.str_or("reasoning"@, Seq::empty())), 1000);
    assert(sig@ =~= head);
    let ghost calls = calls_of(m@);
    if let Some(v) = m.get("tool_calls") {
        if let Some(a) = v.as_array() {
            let mut i: usize = 0;
            assert(head + calls_signature(calls, 0) =~= head);
            while i < a.len()
                invariant
                    i <= a@.len(),
                    calls == jsons(a@),
                    sig@ == head + calls_signature(calls, i as int),
                decreases a.len() - i,
            {
                let name = utf8(name_of_call(&a[i]));
                push_bytes(&mut sig, &name, 0, name.len());
                push_head(&mut sig, args_of_call(&a[i]), 200);
                proof {
                    assert(name@.subrange(0, name@.len() as int) =~= name@);
                    assert(calls[i as int] == a@[i as int]@);
                    assert(sig@ =~= head + calls_signature(calls, i + 1));
                }
                i = i + 1;
            }
        }
    }
    assert(sig@ =~= work_signature(m@));
    sig
}

/// What identifies a turn.
fn turn_signature(m: &Json) -> (r: Vec<u8>)
    ensures
        r@ == signature(m@),
{
    proof {
        reveal_strlit("");
        assert(""@ =~= Seq::empty());
    }
    let mut sig = turn_work(m);
    if sig.len() == 0 {
        push_head(&mut sig, m.str_or("content", ""), 200);
        assert(sig@ =~= signature(m@));
    }
    sig
}

/// Whether the text has at most `n` bytes or can be cut `n` bytes from its start.
fn head_is_cut(s: &str, n: usize) -> (r: bool)
    ensures
        r == head_cuts(s@, n as int),
{
    utf8(s).len() <= n || is_cut(s, n)
}

/// Whether the text has at most `n` bytes or can be cut `n` bytes from its end.
fn tail_is_cut(s: &str, n: usize) -> (r: bool)
    ensures
        r == tail_cuts(s@, n as int),
{
    let len: usize = utf8(s).len();
    len <= n || is_cut(s, len - n)
}

/// How many hashes at the end are the same as the last.
fn count_streak(hashes: &Vec<u64>) -> (r: usize)
    ensures
        r == streak(hashes@),
{
    if hashes.len() == 0 {
        return 0;
    }
    let latest: u64 = hashes[hashes.len() - 1];
    let mut i: usize = hashes.len();
    let mut n: usize = 0;
    while i > 0 && hashes[i - 1] == latest
        invariant
            i <= hashes@.len(),
            n + i == hashes@.len() <= usize::MAX,
            latest == hashes@.last(),
            n + trailing(hashes@, latest, i as int) == trailing(
                hashes@,
                latest,
                hashes@.len() as int,
            ),
        decreases i,
    {
        i = i - 1;
        n = n + 1;
    }
    n
}

/// A run at the end of a sequence is no longer than the sequence.
pub proof fn lemma_streak_bounds(s: Seq<u64>, h: u64, n: int)
    requires
        0 <= n <= s.len(),
    ensures
        0 <= trailing(s, h, n) <= n,
    decreases n,
{
    if n > 0 && s[n - 1] == h {
        lemma_streak_bounds(s, h, n - 1);
    }
}

/// The positions of the assistant messages are in range and ascend.
pub proof fn lemma_positions(ms: Seq<JsonV>, n: int)
    requires
        0 <= n <= ms.len(),
    ensures
        assistant_positions(ms, n).len() <= n,
        forall|i: int|
            0 <= i < assistant_positions(ms, n).len() ==> 0 <= #[trigger] assistant_positions(
                ms,
                n,
            )[i] < n && has_role(ms[assistant_positions(ms, n)[i]], "assistant"@),
        forall|i: int, j: int|
            0 <= i < j < assistant_positions(ms, n).len() ==> #[trigger] assistant_positions(
                ms,
                n,
            )[i] < #[trigger] assistant_positions(ms, n)[j],
    decreases n,
{
    if n > 0 {
        lemma_positions(ms, n - 1);
    }
}

/// The positions of the assistant messages.
fn find_assistants(messages: &Vec<Json>) -> (r: Vec<usize>)
    ensures
        r@.map_values(|x: usize| x as int) == assistant_positions(
            jsons(messages@),
            messages@.len() as int,
        ),
{
    let mut out: Vec<usize> = Vec::new();
    let ghost f = |x: usize| x as int;
    assert(out@.map_values(f) =~= Seq::empty());
    for i in 0..messages.len()
        invariant
            f == (|x: usize| x as int),
            out@.map_values(f) == assistant_positions(jsons(messages@), i as int),
    {
        if role_is(&messages[i], "assistant") {
            let ghost before = out@;
            out.push(i);
            assert(out@.map_values(f) =~= before.map_values(f).push(i as int));
        }
    }
    out
}

/// Whether the message has the given role.
pub fn role_is(m: &Json, role: &str) -> (r: bool)
    ensures
        r == has_role(m@, role@),
{
    match m.str_at("role") {
        Some(s) => same(s, role),
        None => false,
    }
}

/// The position of the last message with the given role.
fn find_last_role(messages: &Vec<Json>, role: &str) -> (r: Option<usize>)
    ensures
        match r {
            Some(i) => i < messages@.len() && last_with_role(
                jsons(messages@),
                role@,
                messages@.len() as int,
            ) == Some(messages@[i as int]@),
            None => last_with_role(jsons(messages@), role@, messages@.len() as int) is None,
        },
{
    let mut i: usize = messages.len();
    while i > 0
        invariant
            i <= messages@.len(),
            last_with_role(jsons(messages@), role@, messages@.len() as int) == last_with_role(
                jsons(messages@),
                role@,
                i as int,
            ),
        decreases i,
    {
        if role_is(&messages[i - 1], role) {
            return Some(i - 1);
        }
        i = i - 1;
    }
    None
}

/// Appends copies of `v[from..to]`.
fn push_slice(out: &mut Vec<Json>, v: &Vec<Json>, from: usize, to: usize)
    requires
        from <= to <= v@.len(),
    ensures
        jsons(final(out)@) == jsons(old(out)@) + jsons(v@).subrange(from as int, to as int),
{
    let ghost start = jsons(out@);
    let ghost all = jsons(v@);
    let mut i: usize = from;
    assert(start + all.subrange(from as int, from as int) =~= start);
    while i < to
        invariant
            from <= i <= to <= v@.len(),
            all == jsons(v@),
            jsons(out@) == start + all.subrange(from as int, i as int),
        decreases to - i,
    {
        let m = v[i].clone();
        proof {
            lemma_jsons_push(out@, m);
            assert(start + all.subrange(from as int, i + 1) =~= (start + all.subrange(
                from as int,
                i as int,
            )).push(m@));
        }
        out.push(m);
        i = i + 1;
    }
}

impl ConversationState {
    /// Marks a tool call as answered. Once the whole batch is, its results are put into
    /// the order of the calls.
    pub fn resolve_tool_call(&mut self, tool_call_id: &str)
        ensures
            final(self)@ == old(self)@.resolve(tool_call_id@),
    {
        let was = self.pending_tool_calls.remove(tool_call_id);
        if self.pending_tool_calls.is_empty() && self.tool_call_order.len() > 0 {
            self.reorder_tool_results();
        }
    }

    /// Puts the last results, one for each call of the batch, into the order of the calls.
    fn reorder_tool_results(&mut self)
        ensures
            final(self)@ == old(self)@.reorder(),
    {
        let n: usize = self.tool_call_order.len();
        if n == 0 || self.messages.len() < n {
            self.tool_call_order = Vec::new();
            assert(texts(self.tool_call_order@) =~= Seq::empty());
            return ;
        }
        let cut: usize = self.messages.len() - n;
        let ghost ms = self@.messages;
        let ghost before = self.messages@;
        let results = self.messages.split_off(cut);
        let mut sorted = order_results(&results, &self.tool_call_order);
        proof {
            assert(jsons(results@) =~= ms.skip(cut as int));
            assert(jsons(self.messages@) =~= ms.take(cut as int));
        }
        let ghost head = self.messages@;
        let ghost tail = sorted@;
        self.messages.append(&mut sorted);
        assert(jsons(self.messages@) =~= jsons(head) + jsons(tail));
        self.tool_call_order = Vec::new();
        assert(texts(self.tool_call_order@) =~= Seq::empty());
    }

    /// Whether the last turn can be given a signature.
    pub fn turn_is_cut(&self) -> (r: bool)
        ensures
            r == self@.turn_cuts(),
    {
        proof {
            reveal_strlit("");
            assert(""@ =~= Seq::empty());
        }
        let i: usize = match find_last_role(&self.messages, "assistant") {
            Some(i) => i,
            None => return true,
        };
        let m = &self.messages[i];
        let ghost calls = calls_of(m@);
        if !tail_is_cut(m.str_or("reasoning", ""), 1000) {
            return false;
        }
        if let Some(v) = m.get("tool_calls") {
            if let Some(a) = v.as_array() {
                let mut k: usize = 0;
                while k < a.len()
                    invariant
                        k <= a@.len(),
                        calls == jsons(a@),
                        calls == calls_of(m@),
                        self@.last_turn() == Some(m@),
                        forall|j: int| 0 <= j < k ==> head_cuts(call_args(#[trigger] calls[j]), 200),
                    decreases a.len() - k,
                {
                    assert(calls[k as int] == a@[k as int]@);
                    if !head_is_cut(args_of_call(&a[k]), 200) {
                        return false;
                    }
                    k = k + 1;
                }
            }
        }
        turn_work(m).len() > 0 || head_is_cut(m.str_or("content", ""), 200)
    }

    /// Records the signature of the last assistant turn, of which the last ten are kept,
    /// and says how often it stands at the end; 0 where there is no such turn or no loop.
    pub fn record_turn_and_check_loop(&mut self) -> (r: usize)
        requires
            old(self)@.turn_cuts(),
        ensures
            final(self)@ == old(self)@.record_turn(),
            r == old(self)@.turn_streak(),
    {
        let i: usize = match find_last_role(&self.messages, "assistant") {
            Some(i) => i,
            None => return 0,
        };
        let sig = turn_signature(&self.messages[i]);
        let h: u64 = hash_bytes(&sig);
        let ghost before = self.recent_turn_hashes@;
        self.recent_turn_hashes.push(h);
        if self.recent_turn_hashes.len() > 10 {
            let mut kept: Vec<u64> = Vec::new();
            let n: usize = self.recent_turn_hashes.len();
            let ghost pushed = self.recent_turn_hashes@;
            let mut k: usize = n - 10;
            while k < n
                invariant
                    n - 10 <= k <= n,
                    n == pushed.len(),
                    n > 10,
                    pushed == self.recent_turn_hashes@,
                    kept@ == pushed.subrange(n - 10, k as int),
                decreases n - k,
            {
                kept.push(self.recent_turn_hashes[k]);
                k = k + 1;
                assert(kept@ =~= pushed.subrange(n - 10, k as int));
            }
            self.recent_turn_hashes = kept;
            assert(self.recent_turn_hashes@ =~= pushed.skip(n - 10));
        }
        let n: usize = count_streak(&self.recent_turn_hashes);
        if n < 2 {
            0
        } else {
            n
        }
    }

    /// Replaces the repeated turns but the last by one note of the system, where the last turn repeats
    /// at least three times; says how many messages went.
    pub fn collapse_loop_turns(&mut self) -> (r: usize)
        ensures
            final(self)@ == old(self)@.collapse(),
            r == old(self)@.collapse_count(),
    {
        let dup: usize = count_streak(&self.recent_turn_hashes);
        if self.recent_turn_hashes.len() < 3 || dup < 3 {
            return 0;
        }
        let ghost ms = self@.messages;
        let at = find_assistants(&self.messages);
        let ghost f = |x: usize| x as int;
        proof {
            lemma_positions(ms, ms.len() as int);
            assert(at@.map_values(f).len() == at@.len());
        }
        if at.len() < dup {
            return 0;
        }
        let to: usize = at[at.len() - 1];
        let from: usize = at[at.len() - dup];
        proof {
            let p = assistant_positions(ms, ms.len() as int);
            assert(p == at@.map_values(f));
            assert(p[p.len() - dup] == from);
            assert(p.last() == to);
            if dup > 1 {
                assert(p[p.len() - dup] < p[p.len() - 1]);
            }
            reveal_strlit("");
            assert(""@ =~= Seq::empty());
        }
        let snippet = take_text(self.messages[from].str_or("reasoning", ""), 300);
        let mut note = owned("[context note: ");
        note.append(dec_text(dup as u64 - 1).as_str());
        note.append(
            " duplicate turn-cycles were compacted from history because they repeated the same approach without progress. Do not re-attempt the same approach. Compacted reasoning snippet for reference: ",
        );
        note.append(quote(snippet.as_str()).as_str());
        note.append("]");
        let mut out: Vec<Json> = Vec::new();
        assert(jsons(out@) =~= Seq::empty());
        push_slice(&mut out, &self.messages, 0, from);
        let note = obj2("role", Json::text("system"), "content", Json::Str(note));
        proof {
            lemma_jsons_push(out@, note);
        }
        out.push(note);
        push_slice(&mut out, &self.messages, to, self.messages.len());
        let n: usize = to - from;
        self.messages = out;
        self.recent_turn_hashes = Vec::new();
        proof {
            assert(self@.messages =~= old(self)@.collapse().messages);
            assert(self@.hashes =~= Seq::empty());
        }
        n
    }

    pub fn increment_iteration(&mut self)
        requires
            old(self).iteration_count < u32::MAX,
        ensures
            final(self)@ == (StateV {
                iteration_count: (old(self)@.iteration_count + 1) as u32,
                ..old(self)@
            }),
    {
        self.iteration_count = self.iteration_count + 1;
    }

    /// A fresh iteration budget.
    pub fn reset_iteration(&mut self)
        ensures
            final(self)@ == (StateV { iteration_count: 0, ..old(self)@ }),
    {
        self.iteration_count = 0;
    }

    pub fn max_reached(&self, max: u32) -> (r: bool)
        ensures
            r == (self@.iteration_count >= max),
    {
        self.iteration_count >= max
    }

    pub fn buffer_user_message(&mut self, message: String)
        ensures
            final(self)@ == (StateV {
                pending_messages: old(self)@.pending_messages.push(message@),
                ..old(self)@
            }),
    {
        let ghost before = self.pending_messages@;
        self.pending_messages.push(message);
        assert(texts(self.pending_messages@) =~= texts(before).push(message@));
    }

    /// Takes the queued user messages.
    pub fn drain_pending_messages(&mut self) -> (r: Vec<String>)
        ensures
            texts(r@) == old(self)@.pending_messages,
            final(self)@ == (StateV { pending_messages: Seq::empty(), ..old(self)@ }),
    {
        let mut out: Vec<String> = Vec::new();
        std::mem::swap(&mut out, &mut self.pending_messages);
        assert(texts(self.pending_messages@) =~= Seq::empty());
        out
    }

    /// The messages as they are sent to the model: the system message first, where there
    /// is one, and no reasoning.
    pub fn build_messages_with_system(&self, system_message: &str) -> (r: Vec<Json>)
        ensures
            jsons(r@) == self@.sent_with(system_message@),
    {
        let mut out: Vec<Json> = Vec::new();
        assert(jsons(out@) =~= Seq::empty());
        if !system_message.is_empty() {
            let m = obj2("role", Json::text("system"), "content", Json::text(system_message));
            proof {
                lemma_jsons_push(out@, m);
            }
            out.push(m);
            assert(jsons(out@) =~= seq![m@]);
        }
        strip_reasoning(&mut out, &self.messages);
        proof {
            if system_message@.len() == 0 {
                assert(jsons(out@) =~= self@.sent_with(system_message@));
            }
        }
        out
    }

    /// Replaces the todo list; the rendered list is what the tool answers.
    pub fn set_todos(&mut self, entries: Vec<TodoEntry>) -> (r: String)
        ensures
            final(self)@ == (StateV { todos: todos(entries@), ..old(self)@ }),
            r@ == rendered(todos(entries@)),
    {
        self.todos = entries;
        render_todos(self.todos.as_slice())
    }

    pub fn todos_render(&self) -> (r: String)
        ensures
            r@ == rendered(self@.todos),
    {
        render_todos(self.todos.as_slice())
    }

    /// Records the usage of a turn, and the context window where it is known.
    pub fn record_usage(&mut self, usage: Usage, context_window: Option<usize>)
        ensures
            final(self)@ == old(self)@.record_usage(usage, context_window),
    {
        self.last_usage = Some(usage);
        if context_window.is_some() {
            self.context_window = context_window;
        }
    }

    /// The tokens that are left in the context window; nothing where the window or the usage
    /// is unknown, or where more was used than the window holds.
    pub fn context_remaining(&self) -> (r: Option<u64>)
        ensures
            r == self@.context_remaining(),
    {
        let window: u64 = match self.context_window {
            Some(w) => w as u64,
            None => return None,
        };
        let used: u64 = match self.last_usage {
            Some(u) => match u.input_tokens {
                Some(n) => n,
                None => return None,
            },
            None => return None,
        };
        if used <= window {
            Some(window - used)
        } else {
            None
        }
    }

    /// The input tokens of the last turn, or 0.
    pub fn used_tokens(&self) -> (r: u64)
        ensures
            r == self@.input_tokens(),
    {
        match self.last_usage {
            Some(u) => match u.input_tokens {
                Some(n) => n,
                None => 0,
            },
            None => 0,
        }
    }

    /// One line on the use of the context; `percent` is the share of the window that is
    /// used, without decimals.
    pub fn context_status_line(&self, percent: &str) -> (r: String)
        ensures
            r@ == self@.status_line(percent@),
    {
        if self.last_usage.is_none() {
            return owned("context: no usage reported yet");
        }
        let mut out = owned("context: ");
        out.append(dec_text(self.used_tokens()).as_str());
        match (self.context_remaining(), self.context_window) {
            (Some(remaining), Some(window)) => {
                out.append("/");
                out.append(dec_text(window as u64).as_str());
                out.append(" tokens used (");
                out.append(percent);
                out.append("%), ");
                out.append(dec_text(remaining).as_str());
                out.append(" remaining");
            },
            _ => {
                out.append(" input tokens used (window unknown)");
            },
        }
        out
    }

    /// Wipes the conversation: messages, todos, pending calls and user messages, the
    /// iteration count, the interrupt flag and what was streamed.
    pub fn clear_for_restart(&mut self)
        ensures
            final(self)@ == old(self)@.clear_for_restart(),
    {
        self.messages = Vec::new();
        self.todos = Vec::new();
        self.pending_tool_calls.clear();
        self.pending_messages = Vec::new();
        self.iteration_count = 0;
        self.was_interrupted = false;
        self.current_reasoning = String::new();
        self.current_partial_response = String::new();
        self.tool_call_order = Vec::new();
        self.inference_in_flight = false;
        proof {
            assert(jsons(self.messages@) =~= Seq::empty());
            assert(todos(self.todos@) =~= Seq::empty());
            assert(texts(self.pending_messages@) =~= Seq::empty());
            assert(texts(self.tool_call_order@) =~= Seq::empty());
        }
    }
}

/// A copy of every value of a list of todos.
fn clone_todos(v: &Vec<TodoEntry>) -> (r: Vec<TodoEntry>)
    ensures
        todos(r@) == todos(v@),
{
    let mut out: Vec<TodoEntry> = Vec::new();
    for i in 0..v.len()
        invariant
            out@.len() == i,
            forall|j: int| 0 <= j < i ==> (#[trigger] out@[j])@ == v@[j]@,
    {
        out.push(v[i].clone());
    }
    assert(todos(out@) =~= todos(v@));
    out
}

fn clone_surprises(v: &Vec<Surprise>) -> (r: Vec<Surprise>)
    ensures
        surprises(r@) == surprises(v@),
{
    let mut out: Vec<Surprise> = Vec::new();
    for i in 0..v.len()
        invariant
            out@.len() == i,
            forall|j: int| 0 <= j < i ==> (#[trigger] out@[j])@ == v@[j]@,
    {
        out.push(v[i].clone());
    }
    assert(surprises(out@) =~= surprises(v@));
    out
}

fn clone_reminders(v: &Vec<ContextReminder>) -> (r: Vec<ContextReminder>)
    ensures
        reminders(r@) == reminders(v@),
{
    let mut out: Vec<ContextReminder> = Vec::new();
    for i in 0..v.len()
        invariant
            out@.len() == i,
            forall|j: int| 0 <= j < i ==> (#[trigger] out@[j])@ == v@[j]@,
    {
        out.push(
            ContextReminder {
                threshold_tokens: v[i].threshold_tokens,
                message: v[i].message.clone(),
            },
        );
    }
    assert(reminders(out@) =~= reminders(v@));
    out
}

fn clone_wake_ups(v: &Vec<WakeUp>) -> (r: Vec<WakeUp>)
    ensures
        wake_ups(r@) == wake_ups(v@),
{
    let mut out: Vec<WakeUp> = Vec::new();
    for i in 0..v.len()
        invariant
            out@.len() == i,
            forall|j: int| 0 <= j < i ==> (#[trigger] out@[j])@ == v@[j]@,
    {
        out.push(WakeUp { due: v[i].due, interval: v[i].interval, message: v[i].message.clone() });
    }
    assert(wake_ups(out@) =~= wake_ups(v@));
    out
}

fn clone_hashes(v: &Vec<u64>) -> (r: Vec<u64>)
    ensures
        r@ == v@,
{
    let mut out: Vec<u64> = Vec::new();
    for i in 0..v.len()
        invariant
            out@ == v@.take(i as int),
    {
        out.push(v[i]);
        assert(v@.take(i + 1) =~= v@.take(i as int).push(v@[i as int]));
    }
    assert(v@.take(v@.len() as int) =~= v@);
    out
}

impl Clone for ConversationState {
    fn clone(&self) -> (r: ConversationState)
        ensures
            r@ == self@,
    {
        ConversationState {
            messages: clone_jsons(&self.messages),
            iteration_count: self.iteration_count,
            pending_tool_calls: self.pending_tool_calls.clone(),
            pending_messages: clone_strings(self.pending_messages.as_slice()),
            was_interrupted: self.was_interrupted,
            todos: clone_todos(&self.todos),
            current_reasoning: self.current_reasoning.clone(),
            current_partial_response: self.current_partial_response.clone(),
            tool_call_order: clone_strings(self.tool_call_order.as_slice()),
            inference_in_flight: self.inference_in_flight,
            last_usage: self.last_usage,
            context_window: self.context_window,
            recent_turn_hashes: clone_hashes(&self.recent_turn_hashes),
            subagent_depth: self.subagent_depth,
            active_system_message: crate::request::clone_opt_text(&self.active_system_message),
            surprises: clone_surprises(&self.surprises),
            context_reminders: clone_reminders(&self.context_reminders),
            wake_ups: clone_wake_ups(&self.wake_ups),
        }
    }
}

} // verus!
