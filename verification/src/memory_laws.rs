//! What an agent keeps in mind: reminders, wake-ups, its todo list, its incidents and its notes.

use crate::agent::AgentV;
use crate::agent_tools::{handled_inline, in_progress_before, one_in_progress, resolved_path};
use crate::agent_tools::{report_of, restart_file, todos_of};
use crate::five_whys::{
    analysis_settings, kebab, long_slug, metric_lines, numbered, path_of, prompt_of, slug_of, strip_hyphens,
    surprise_section, surprise_sections, surprises_md, truncated, ReportV, SurpriseV,
};
use crate::internal_tools::{
    backup_name, rendered, restart_instruction, todo_lines, todo_of, TodoStatus, TodoV,
};
use crate::json::JsonV;
use crate::notes::{fixme_from, note_path, open_fixmes, FixmeV};
use crate::schedule::{fired_reminders, fired_wake_ups, kept_reminders, kept_wake_ups};
use crate::state::{ReminderV, StateV, WakeUpV};
use crate::summary::{ruled, summary_lines};
use crate::text::{alphanumeric, ascii_lower, dec, join, lowercase, take_chars, trim};
use vstd::prelude::*;

verus! {

// ---- reminders

proof fn lemma_reminders(rs: Seq<ReminderV>, used: u64, n: int)
    requires
        0 <= n <= rs.len(),
    ensures
        fired_reminders(rs, used, n) == rs.take(n).filter(|r: ReminderV| used > r.threshold).map_values(
            |r: ReminderV| r.message,
        ),
        kept_reminders(rs, used, n) == rs.take(n).filter(|r: ReminderV| used <= r.threshold),
    decreases n,
{
    let p = |r: ReminderV| used > r.threshold;
    let q = |r: ReminderV| used <= r.threshold;
    let f = |r: ReminderV| r.message;
    reveal(Seq::filter);
    if n > 0 {
        lemma_reminders(rs, used, n - 1);
        assert(rs.take(n).drop_last() =~= rs.take(n - 1));
        assert(rs.take(n).last() == rs[n - 1]);
        let a = rs.take(n - 1).filter(p);
        assert(a.push(rs[n - 1]).map_values(f) =~= a.map_values(f).push(rs[n - 1].message));
    } else {
        assert(rs.take(0).filter(p).map_values(f) =~= Seq::empty());
        assert(rs.take(0).filter(q) =~= Seq::empty());
    }
}

/// A check of the usage sets off the reminders whose threshold it has passed, in their order: what
/// they say waits behind what waited before, and they are gone; the others stay.
pub proof fn lemma_reminders_fire(s: StateV, used: u64)
    ensures
        ({
            let t = s.check_reminders(used);
            let due = s.reminders.filter(|r: ReminderV| used > r.threshold).map_values(
                |r: ReminderV| r.message,
            );
            &&& s.due_reminders(used) == due
            &&& t.pending_messages == s.pending_messages + due
            &&& t.reminders == s.reminders.filter(|r: ReminderV| used <= r.threshold)
            &&& t == (StateV {
                pending_messages: t.pending_messages,
                reminders: t.reminders,
                ..s
            })
        }),
{
    lemma_reminders(s.reminders, used, s.reminders.len() as int);
    assert(s.reminders.take(s.reminders.len() as int) =~= s.reminders);
}

/// A number under a key, where it is one that a count can hold.
pub open spec fn count_at(v: JsonV, k: Seq<char>) -> Option<int> {
    match v.get(k) {
        Some(JsonV::Int(n)) => if 0 <= n <= u64::MAX {
            Some(n)
        } else {
            None
        },
        _ => None,
    }
}

/// A text under a key.
pub open spec fn words_at(v: JsonV, k: Seq<char>) -> Option<Seq<char>> {
    match v.get(k) {
        Some(JsonV::Str(s)) => Some(s),
        _ => None,
    }
}

/// A reminder is set behind the others, with its own threshold and message; without both nothing
/// is set.
pub proof fn lemma_reminder_is_set(w: AgentV, args: JsonV)
    ensures
        ({
            let (v, o) = w.set_reminder(args);
            let (m, t) = (words_at(args, "message"@), count_at(args, "threshold_tokens"@));
            &&& o.success <==> m is Some && t is Some
            &&& !o.success ==> v == w
            &&& o.success ==> v == (AgentV {
                conv: StateV { reminders: v.conv.reminders, ..w.conv },
                ..w
            }) && v.conv.reminders == w.conv.reminders.push(v.conv.reminders.last())
                && v.conv.reminders.len() == w.conv.reminders.len() + 1
                && v.conv.reminders.last().threshold == t.unwrap()
                && v.conv.reminders.last().message == m.unwrap()
        }),
{
    let (v, o) = w.set_reminder(args);
    if o.success {
        assert(v.conv.reminders =~= w.conv.reminders.push(v.conv.reminders.last()));
    }
}

// ---- wake-ups

proof fn lemma_fired(ws: Seq<WakeUpV>, now: u64, n: int)
    requires
        0 <= n <= ws.len(),
    ensures
        fired_wake_ups(ws, now, true, n) == ws.take(n).filter(|w: WakeUpV| w.due <= now).map_values(
            |w: WakeUpV| w.message,
        ),
        fired_wake_ups(ws, now, false, n).len() == 0,
    decreases n,
{
    let p = |w: WakeUpV| w.due <= now;
    let f = |w: WakeUpV| w.message;
    reveal(Seq::filter);
    if n > 0 {
        lemma_fired(ws, now, n - 1);
        assert(ws.take(n).drop_last() =~= ws.take(n - 1));
        assert(ws.take(n).last() == ws[n - 1]);
        let a = ws.take(n - 1).filter(p);
        assert(a.push(ws[n - 1]).map_values(f) =~= a.map_values(f).push(ws[n - 1].message));
    } else {
        assert(ws.take(0).filter(p).map_values(f) =~= Seq::empty());
    }
}

/// An idle agent is woken by every wake-up that is due, in their order; a busy one by none. What
/// they say waits behind what waited before.
pub proof fn lemma_wake_ups_fire(s: StateV, now: u64)
    ensures
        ({
            let t = s.check_wake_ups(now);
            let due = if s.idle() {
                s.wake_ups.filter(|w: WakeUpV| w.due <= now).map_values(|w: WakeUpV| w.message)
            } else {
                Seq::empty()
            };
            &&& s.due_wake_ups(now) == due
            &&& t.pending_messages == s.pending_messages + due
            &&& t == (StateV { pending_messages: t.pending_messages, wake_ups: t.wake_ups, ..s })
        }),
{
    let n = s.wake_ups.len() as int;
    lemma_fired(s.wake_ups, now, n);
    assert(s.wake_ups.take(n) =~= s.wake_ups);
    if !s.idle() {
        assert(s.due_wake_ups(now) =~= Seq::empty());
    }
}

proof fn lemma_kept_prefix(ws: Seq<WakeUpV>, w: WakeUpV, now: u64, idle: bool, n: int)
    requires
        0 <= n <= ws.len(),
    ensures
        kept_wake_ups(ws.push(w), now, idle, n) == kept_wake_ups(ws, now, idle, n),
    decreases n,
{
    if n > 0 {
        lemma_kept_prefix(ws, w, now, idle, n - 1);
        assert(ws.push(w)[n - 1] == ws[n - 1]);
    }
}

/// A wake-up that is not due stays as it is. One that is due and recurs is set to an interval
/// from now, whether it fires or not. A single one goes once it has fired, and stays while the
/// agent is busy.
pub proof fn lemma_wake_ups_after_a_check(s: StateV, w: WakeUpV, now: u64)
    ensures
        ({
            let more = StateV { wake_ups: s.wake_ups.push(w), ..s };
            let before = s.check_wake_ups(now).wake_ups;
            let after = more.check_wake_ups(now).wake_ups;
            &&& w.due > now ==> after == before.push(w)
            &&& w.due <= now ==> match w.interval {
                Some(i) => after == before.push(after.last()) && after.len() == before.len() + 1
                    && after.last().message == w.message && after.last().interval == w.interval
                    && after.last().due == if now + i <= u64::MAX {
                    now + i
                } else {
                    u64::MAX as int
                },
                None => if s.idle() {
                    after == before
                } else {
                    after == before.push(w)
                },
            }
            &&& StateV { wake_ups: Seq::empty(), ..s }.check_wake_ups(now).wake_ups.len() == 0
        }),
{
    let n = s.wake_ups.len() as int;
    let more = StateV { wake_ups: s.wake_ups.push(w), ..s };
    lemma_kept_prefix(s.wake_ups, w, now, s.idle(), n);
    assert(more.wake_ups[n] == w);
    assert(more.idle() == s.idle());
    let before = s.check_wake_ups(now).wake_ups;
    let after = more.check_wake_ups(now).wake_ups;
    if w.due <= now && w.interval is Some {
        assert(after =~= before.push(after.last()));
    }
}

/// A wake-up is set behind the others, so many seconds from now, with its interval where it
/// recurs; without a message and a delay nothing is set.
pub proof fn lemma_wake_up_is_set(w: AgentV, args: JsonV, now_ms: u64)
    ensures
        ({
            let (v, o) = w.set_wake_up(args, now_ms);
            let (m, d) = (words_at(args, "message"@), count_at(args, "delay_seconds"@));
            let new = v.conv.wake_ups.last();
            &&& o.success <==> m is Some && d is Some
            &&& !o.success ==> v == w
            &&& o.success ==> v == (AgentV {
                conv: StateV { wake_ups: v.conv.wake_ups, ..w.conv },
                ..w
            }) && v.conv.wake_ups == w.conv.wake_ups.push(new) && v.conv.wake_ups.len()
                == w.conv.wake_ups.len() + 1 && new.message == m.unwrap() && new.due == if now_ms
                / 1000 + d.unwrap() <= u64::MAX {
                now_ms / 1000 + d.unwrap()
            } else {
                u64::MAX as int
            } && match count_at(args, "interval_seconds"@) {
                Some(i) => new.interval matches Some(j) && i == j,
                None => new.interval is None,
            }
        }),
{
    let (v, o) = w.set_wake_up(args, now_ms);
    if o.success {
        assert(v.conv.wake_ups =~= w.conv.wake_ups.push(v.conv.wake_ups.last()));
    }
}

// ---- todos

/// A todo has the text that it is given, without white space around it; it is pending unless it
/// is said to be in progress or done, and of medium priority unless another is named. One without
/// text is refused.
pub proof fn lemma_todo(v: JsonV)
    ensures
        match words_at(v, "content"@) {
            None => todo_of(v) is Err,
            Some(c) => if trim(c).len() == 0 {
                todo_of(v) is Err
            } else {
                todo_of(v) matches Ok(t) && t.content == trim(c) && t.priority == (match words_at(
                    v,
                    "priority"@,
                ) {
                    Some(p) => p,
                    None => "medium"@,
                }) && match words_at(v, "status"@) {
                    None => t.status == TodoStatus::Pending,
                    Some(s) => {
                        let w = lowercase(trim(s));
                        &&& t.status == TodoStatus::Completed <==> w == "completed"@ || w == "done"@
                            || w == "finished"@
                        &&& t.status == TodoStatus::InProgress <==> w == "in_progress"@ || w
                            == "in-progress"@ || w == "started"@ || w == "active"@
                    },
                }
            },
        },
{
    reveal_strlit("completed");
    reveal_strlit("done");
    reveal_strlit("finished");
    reveal_strlit("in_progress");
    reveal_strlit("in-progress");
    reveal_strlit("started");
    reveal_strlit("active");
    assert("completed"@[0] == 'c' && "done"@[0] == 'd' && "finished"@[0] == 'f');
    assert("in_progress"@[0] == 'i' && "in-progress"@[0] == 'i' && "started"@[0] == 's');
    assert("active"@[0] == 'a');
}

/// A todo list is written whole, one entry for each item in its order, or not at all.
pub proof fn lemma_todos_are_written(w: AgentV, args: JsonV)
    ensures
        ({
            let (v, o) = w.todo_write(args);
            match args.get("todos"@) {
                Some(JsonV::Array(items)) => {
                    &&& o.success <==> forall|i: int|
                        0 <= i < items.len() ==> todo_of(#[trigger] items[i]) is Ok
                    &&& !o.success ==> v == w
                    &&& o.success ==> v == (AgentV {
                        conv: StateV { todos: v.conv.todos, ..w.conv },
                        ..w
                    }) && v.conv.todos.len() == items.len() && (forall|i: int|
                        0 <= i < items.len() ==> ((#[trigger] todo_of(items[i])) matches Ok(t)
                            && v.conv.todos[i].content == t.content && v.conv.todos[i].priority
                            == t.priority && (v.conv.todos[i].status == t.status
                            || v.conv.todos[i].status == TodoStatus::Pending && t.status
                            == TodoStatus::InProgress && exists|j: int|
                            0 <= j < i && (#[trigger] v.conv.todos[j]).status
                                == TodoStatus::InProgress)))
                },
                _ => v == w && !o.success,
            }
        }),
{
    let (v, o) = w.todo_write(args);
    if let Some(JsonV::Array(items)) = args.get("todos"@) {
        lemma_todos_of(items, items.len() as int);
        if o.success {
            let ts = todos_of(items, items.len() as int)->Ok_0;
            assert forall|i: int| 0 <= i < items.len() implies ((
            #[trigger] todo_of(items[i])) matches Ok(t) && v.conv.todos[i].content == t.content
                && v.conv.todos[i].priority == t.priority && (v.conv.todos[i].status == t.status
                || v.conv.todos[i].status == TodoStatus::Pending && t.status
                == TodoStatus::InProgress && exists|j: int|
                0 <= j < i && (#[trigger] v.conv.todos[j]).status == TodoStatus::InProgress)) by {
                assert(todo_of(items[i]) == Ok::<TodoV, Seq<char>>(ts[i]));
                if ts[i].status == TodoStatus::InProgress && in_progress_before(ts, i) {
                    let k = lemma_first_in_progress(ts, i);
                    assert(v.conv.todos[k].status == TodoStatus::InProgress);
                }
            }
        }
    }
}

proof fn lemma_first_in_progress(ts: Seq<TodoV>, n: int) -> (k: int)
    requires
        0 <= n <= ts.len(),
        in_progress_before(ts, n),
    ensures
        0 <= k < n,
        one_in_progress(ts)[k].status == TodoStatus::InProgress,
    decreases n,
{
    let j = choose|j: int| 0 <= j < n && (#[trigger] ts[j]).status == TodoStatus::InProgress;
    if in_progress_before(ts, j) {
        lemma_first_in_progress(ts, j)
    } else {
        j
    }
}

proof fn lemma_todos_of(vs: Seq<JsonV>, n: int)
    requires
        0 <= n <= vs.len(),
    ensures
        todos_of(vs, n) is Ok <==> forall|i: int| 0 <= i < n ==> todo_of(#[trigger] vs[i]) is Ok,
        todos_of(vs, n) matches Ok(ts) ==> ts.len() == n && forall|i: int|
            0 <= i < n ==> #[trigger] todo_of(vs[i]) == Ok::<TodoV, Seq<char>>(ts[i]),
    decreases n,
{
    if n > 0 {
        lemma_todos_of(vs, n - 1);
    }
}

/// A todo list is read entry by entry, each in a line with its mark, its number, its priority and
/// its text.
pub proof fn lemma_todos_are_read(ts: Seq<TodoV>, t: TodoV)
    ensures
        rendered(Seq::empty()) == "(todo list is empty)"@,
        ({
            let mark = match t.status {
                TodoStatus::Pending => "[ ]"@,
                TodoStatus::InProgress => "[~]"@,
                TodoStatus::Completed => "[x]"@,
            };
            rendered(ts.push(t)) == (if ts.len() == 0 {
                Seq::empty()
            } else {
                rendered(ts)
            }) + (mark + " "@ + dec(ts.len() as int + 1) + " "@ + t.priority + " — "@ + t.content
                + "\n"@)
        }),
{
    lemma_todo_lines(ts, t, ts.len() as int);
    assert(ts.push(t)[ts.len() as int] == t);
}

proof fn lemma_todo_lines(ts: Seq<TodoV>, t: TodoV, n: int)
    requires
        0 <= n <= ts.len(),
    ensures
        todo_lines(ts.push(t), n) == todo_lines(ts, n),
    decreases n,
{
    if n > 0 {
        lemma_todo_lines(ts, t, n - 1);
        assert(ts.push(t)[n - 1] == ts[n - 1]);
    }
}

/// The tools that an agent handles itself are these six; no other is.
pub proof fn lemma_own_tools(name: Seq<char>)
    ensures
        handled_inline(name) <==> name == "todo_write"@ || name == "todo_read"@ || name
            == "restart_from_file"@ || name == "set_context_reminder"@ || name
            == "schedule_wake_up"@ || name == "call_subagent"@,
{
}

// ---- restarts and handoffs

/// The instruction of a restart carries the file, whole and unchanged.
pub proof fn lemma_handoff_is_carried(text: Seq<char>)
    ensures
        exists|a: Seq<char>, b: Seq<char>| restart_instruction(text) == #[trigger] (a + text + b),
        forall|other: Seq<char>|
            #[trigger] restart_instruction(other) == restart_instruction(text) ==> other == text,
{
    let a = "[Context restarted from file — prior history was backed up to /tmp.]\n---BEGIN HANDOFF---\n"@;
    let b = "\n---END HANDOFF---\nContinue executing the work described above. Re-establish any needed context from the handoff, check the todo list if relevant, and proceed."@;
    assert(restart_instruction(text) == a + text + b);
    assert forall|other: Seq<char>| #[trigger]
        restart_instruction(other) == restart_instruction(text) implies other == text by {
        let (x, y) = (a + other + b, a + text + b);
        assert(x == y);
        assert(other.len() == text.len());
        let n = a.len() as int;
        let m = n + text.len();
        assert(x.subrange(n, m) =~= other);
        assert(y.subrange(n, m) =~= text);
    }
}

/// The file of a restart is the one that is named, without white space around it; relative names
/// stand below the working directory.
pub proof fn lemma_restart_file(args: JsonV)
    ensures
        match words_at(args, "filename"@) {
            None => restart_file(args) is None,
            Some(f) => restart_file(args) == if trim(f).len() > 0 {
                Some(trim(f))
            } else {
                None
            },
        },
{
}

/// A path of the agent: absolute and home paths as they are, others below its directory.
pub proof fn lemma_agent_paths(path: Seq<char>, dir: Seq<char>, cwd: Seq<char>)
    ensures
        resolved_path(path, dir, cwd) == if path.len() > 0 && (path[0] == '/' || path[0] == '~') {
            path
        } else if dir == "."@ {
            cwd + seq!['/'] + path
        } else {
            dir + seq!['/'] + path
        },
{
    reveal_strlit("/");
    reveal_strlit("~");
    assert("/"@ =~= seq!['/']);
    assert("~"@ =~= seq!['~']);
    if path.len() > 0 {
        assert(path.subrange(0, 1) =~= seq![path[0]]);
        assert(seq![path[0]][0] == path[0]);
        assert(crate::text::starts_with(path, "/"@) <==> path[0] == '/');
        assert(crate::text::starts_with(path, "~"@) <==> path[0] == '~');
    }
}

/// A text is cut only where it is too long, after as many characters as it may have, and says
/// so.
pub proof fn lemma_truncated(t: Seq<char>, n: int)
    requires
        n >= 0,
    ensures
        t.len() <= n ==> truncated(t, n) == t,
        t.len() > n ==> truncated(t, n) == t.subrange(0, n) + "...[truncated]"@,
{
    if t.len() > n {
        assert(t.subrange(0, n) =~= t.take(n));
    }
}

/// The summary of a conversation tells what the user and the assistant said, and nothing that a
/// tool or the system did.
pub proof fn lemma_summary_lines(ms: Seq<JsonV>, n: int)
    requires
        0 <= n < ms.len(),
    ensures
        ({
            let m = ms[n];
            let said = match m.get("content"@) {
                Some(JsonV::Str(t)) => t,
                _ => "(non-text content)"@,
            };
            summary_lines(ms, n + 1) == if m.get("role"@) == Some(JsonV::Str("user"@)) {
                summary_lines(ms, n).push("user"@ + ": "@ + said)
            } else if m.get("role"@) == Some(JsonV::Str("assistant"@)) {
                summary_lines(ms, n).push("assistant"@ + ": "@ + said)
            } else {
                summary_lines(ms, n)
            }
        }),
        summary_lines(ms, 0).len() == 0,
{
    reveal_strlit("?");
    reveal_strlit("user");
    reveal_strlit("assistant");
    assert("?"@.len() == 1 && "user"@.len() == 4 && "assistant"@.len() == 9);
}

/// The summary holds the last so many of these lines, or all of them where there are fewer, in
/// their order.
pub proof fn lemma_summary(s: StateV, n: int)
    requires
        n >= 0,
    ensures
        ({
            let lines = summary_lines(s.messages, s.messages.len() as int);
            let shown = if lines.len() > n {
                lines.skip(lines.len() - n)
            } else {
                lines
            };
            s.summary(n) == "# Max-iterations handoff\n\nLast "@ + dec(shown.len() as int)
                + " of "@ + dec(lines.len() as int) + " user/assistant messages:\n\n"@ + under_rules(
                shown,
            ) + "\niteration_count: "@ + dec(s.iteration_count as int) + " (max)\n"@
        }),
{
    let lines = summary_lines(s.messages, s.messages.len() as int);
    let from = if lines.len() > n {
        lines.len() - n
    } else {
        0
    };
    lemma_under_rules(lines, from, lines.len() as int);
    assert(lines.subrange(from, lines.len() as int) =~= lines.skip(from));
    assert(lines.skip(0) =~= lines);
}

/// Texts one below the other, each cut after 2000 characters, with a rule below each.
pub open spec fn under_rules(lines: Seq<Seq<char>>) -> Seq<char>
    decreases lines.len(),
{
    if lines.len() == 0 {
        Seq::empty()
    } else {
        under_rules(lines.drop_last()) + truncated(lines.last(), 2000) + "\n\n---\n\n"@
    }
}

proof fn lemma_under_rules(lines: Seq<Seq<char>>, from: int, to: int)
    requires
        0 <= from <= to <= lines.len(),
    ensures
        ruled(lines, from, to) == under_rules(lines.subrange(from, to)),
    decreases to - from,
{
    if from < to {
        lemma_under_rules(lines, from, to - 1);
        assert(lines.subrange(from, to).drop_last() =~= lines.subrange(from, to - 1));
    }
}

// ---- incidents

/// Every incident of a session has its own section, in the order in which they came.
pub proof fn lemma_incidents_are_written(s: Seq<SurpriseV>, x: SurpriseV)
    ensures
        surprises_md(Seq::empty()).len() == 0,
        surprise_sections(s.push(x), s.len() as int + 1) == surprise_sections(s, s.len() as int)
            + surprise_section(s.len() as int, x),
        s.len() > 0 ==> surprises_md(s)
            == "# Session Surprises\n\nRecorded during the session ("@ + dec(s.len() as int)
            + " incidents):\n\n"@ + surprise_sections(s, s.len() as int),
{
    lemma_sections(s, x, s.len() as int);
}

proof fn lemma_sections(s: Seq<SurpriseV>, x: SurpriseV, n: int)
    requires
        0 <= n <= s.len(),
    ensures
        surprise_sections(s.push(x), n) == surprise_sections(s, n),
    decreases n,
{
    if n > 0 {
        lemma_sections(s, x, n - 1);
        assert(s.push(x)[n - 1] == s[n - 1]);
    }
}

/// An analysis asks about the incident: its kind, its trigger and its trace up to 8000
/// characters stand in the prompt.
pub proof fn lemma_analysis_prompt(r: ReportV)
    ensures
        exists|a: Seq<char>, b: Seq<char>, c: Seq<char>, d: Seq<char>|
            prompt_of(r) == #[trigger] (a + r.kind + b + r.trigger + c + truncated(r.trace, 8000)
                + d),
{
    let a = crate::five_whys::PROMPT_HEAD@;
    let b = crate::five_whys::PROMPT_TRIGGER@;
    let calls = if r.calls.len() == 0 {
        "(none)"@
    } else {
        join(numbered(r.calls), "\n"@)
    };
    let c = crate::five_whys::PROMPT_METRICS@ + metric_lines(r.metrics, r.metrics.len() as int)
        + crate::five_whys::PROMPT_CALLS@ + calls + crate::five_whys::PROMPT_TRACE@;
    let d = crate::five_whys::PROMPT_TASK@;
    assert(prompt_of(r) =~= (a + r.kind + b + r.trigger + c + truncated(r.trace, 8000) + d));
}

/// An analysis uses the model and the endpoint of the agent.
pub proof fn lemma_analysis_settings(c: crate::config::LlmConfigV)
    ensures
        ({
            let d = analysis_settings(c);
            &&& d.model == c.model && d.base_url == c.base_url && d.api_key == c.api_key
            &&& d.temperature == "0.3"@ && d.max_tokens == 4096
            &&& d.request_timeout_secs == c.request_timeout_secs
            &&& d.max_retries == c.max_retries
        }),
{
}

/// A slug is made of lowercase letters, digits and single hyphens.
pub proof fn lemma_kebab(s: Seq<char>, n: int)
    requires
        0 <= n <= s.len(),
    ensures
        kebab(s, 0).len() == 0,
        n > 0 && alphanumeric(s[n - 1]) ==> kebab(s, n) == kebab(s, n - 1).push(
            ascii_lower(s[n - 1]),
        ),
        n > 0 && !alphanumeric(s[n - 1]) ==> kebab(s, n).len() > 0 && kebab(s, n).last() == '-',
        n > 1 && !alphanumeric(s[n - 1]) && !alphanumeric(s[n - 2]) ==> kebab(s, n) == kebab(
            s,
            n - 1,
        ),
    decreases n,
{
    if n > 1 {
        lemma_kebab(s, n - 1);
    }
}

// ---- notes

/// The entry that an id stands for is the first that has it.
pub proof fn lemma_fixme(s: Seq<FixmeV>, id: Seq<char>, i: int)
    requires
        0 <= i,
    ensures
        fixme_from(s, id, i) matches Some(k) ==> i <= k < s.len() && s[k].id == id && forall|j: int|
            i <= j < k ==> (#[trigger] s[j]).id != id,
        fixme_from(s, id, i) is None ==> forall|j: int|
            i <= j < s.len() ==> (#[trigger] s[j]).id != id,
    decreases s.len() - i,
{
    if i < s.len() && s[i].id != id {
        lemma_fixme(s, id, i + 1);
    }
}

/// What is open are the entries that are not done, in their order.
pub proof fn lemma_open_fixmes(s: Seq<FixmeV>, f: FixmeV)
    ensures
        open_fixmes(Seq::empty()).len() == 0,
        f.done ==> open_fixmes(s.push(f)) == open_fixmes(s),
        !f.done ==> open_fixmes(s.push(f)) == open_fixmes(s).push(f),
{
    reveal(Seq::filter);
    assert(s.push(f).drop_last() =~= s);
}

/// Notes are kept in the working directory, and where that is the current one, in it.
pub proof fn lemma_note_paths(dir: Seq<char>, name: Seq<char>)
    requires
        dir.len() > 0,
        dir.last() != '/',
        dir != "."@,
    ensures
        note_path(dir, None, name) == dir + seq!['/'] + name,
        note_path("."@, Some(dir), name) == dir + seq!['/'] + name,
{
    reveal_strlit("/");
    assert("/"@ =~= seq!['/']);
    let n = dir.len() as int;
    assert(dir.subrange(n - 1, n)[0] == dir.last());
    assert(!crate::text::ends_with(dir, "/"@));
}

/// An analysis is kept in its own directory, under a name of up to 80 bytes that its incident
/// gives it, and the time.
pub proof fn lemma_analysis_path(r: ReportV, secs: int)
    ensures
        path_of(r, secs) == "tmp/five-whys/"@ + slug_of(r) + "-"@ + crate::calendar::utc_text(secs)
            + ".md"@,
        crate::bytes::byte_len(slug_of(r)) <= 80,
        exists|s: Seq<char>, n: int|
            0 <= n <= s.len() && s == strip_hyphens(
                kebab(r.kind + "-"@ + r.trigger, (r.kind + "-"@ + r.trigger).len() as int),
            ) && slug_of(r) == #[trigger] s.take(n),
{
    crate::bytes::lemma_byte_prefix(long_slug(r), 80);
    let s = long_slug(r);
    let n = slug_of(r).len() as int;
    assert(slug_of(r) =~= s.take(n));
}

/// The backup of a context is named by the process and the time.
pub proof fn lemma_backup(pid: int, secs: int)
    ensures
        backup_name(pid, secs) == dec(pid) + "-"@ + crate::calendar::utc_text(secs) + ".json"@,
{
}

/// The report of an incident is the incident's own; where it left no trace, it says so.
pub proof fn lemma_report(s: SurpriseV)
    ensures
        report_of(s).kind == s.kind,
        report_of(s).trigger == s.trigger,
        s.trace.len() > 0 ==> report_of(s).trace == s.trace,
        s.trace.len() == 0 ==> report_of(s).trace == "(no trace available)"@,
        report_of(s).calls.len() == 0,
{
}

/// A section tells what kind of incident it was, what set it off, and the first 500 characters of
/// its trace.
pub proof fn lemma_incident_section(i: int, s: SurpriseV)
    ensures
        ({
            let head = "## Surprise "@ + dec(i + 1) + " — "@ + crate::calendar::utc_text(
                s.ms as int / 1000,
            ) + "\n- **Kind**: "@ + s.kind + "\n- **Trigger**: "@ + s.trigger + "\n"@;
            &&& s.trace.len() == 0 ==> surprise_section(i, s) == head + "\n"@
            &&& s.trace.len() > 0 ==> surprise_section(i, s) == head
                + "- **Trace (first 500 chars)**:\n```\n"@ + take_chars(s.trace, 500)
                + "\n```\n"@ + "\n"@
        }),
{
    let head = "## Surprise "@ + dec(i + 1) + " — "@ + crate::calendar::utc_text(
        s.ms as int / 1000,
    ) + "\n- **Kind**: "@ + s.kind + "\n- **Trigger**: "@ + s.trigger + "\n"@;
    if s.trace.len() == 0 {
        assert(surprise_section(i, s) =~= head + "\n"@);
    } else {
        assert(surprise_section(i, s) =~= head + "- **Trace (first 500 chars)**:\n```\n"@
            + take_chars(s.trace, 500) + "\n```\n"@ + "\n"@);
    }
}

/// What is said of the use of the context: how much was used, of how much, and what is left.
pub proof fn lemma_status_line(s: StateV, percent: Seq<char>)
    ensures
        s.last_usage is None ==> s.status_line(percent) == "context: no usage reported yet"@,
        s.last_usage matches Some(u) ==> (u.input_tokens matches Some(n) ==> (
        s.context_window matches Some(w) ==> n <= w ==> s.status_line(percent) == "context: "@ + dec(
            n as int,
        ) + "/"@ + dec(w as int) + " tokens used ("@ + percent + "%), "@ + dec(w - n)
            + " remaining"@)),
{
}

/// Of a list that was written at most one task is in progress, and the answer shows the list as it
/// is kept.
pub proof fn lemma_one_task_at_a_time(w: AgentV, args: JsonV, i: int, j: int)
    requires
        ({
            let (v, o) = w.todo_write(args);
            o.success && 0 <= i < v.conv.todos.len() && 0 <= j < v.conv.todos.len()
        }),
    ensures
        ({
            let (v, o) = w.todo_write(args);
            &&& v.conv.todos[i].status == TodoStatus::InProgress && v.conv.todos[j].status
                == TodoStatus::InProgress ==> i == j
            &&& o.text == rendered(v.conv.todos)
            &&& !o.reset
        }),
{
    let (v, o) = w.todo_write(args);
    if let Some(JsonV::Array(items)) = args.get("todos"@) {
        let ts = todos_of(items, items.len() as int)->Ok_0;
        if v.conv.todos[i].status == TodoStatus::InProgress && v.conv.todos[j].status
            == TodoStatus::InProgress {
            crate::agent_tools::lemma_at_most_one_in_progress(ts, i, j);
        }
    }
}

} // verus!
