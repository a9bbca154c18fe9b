//! Tool calls: those that the agent handles itself, and the dispatch of the others.

use crate::agent::{frames, AgentActor, AgentState, AgentV, Effect, EffectV, FrameV, SubagentFrame};
use crate::five_whys::{
    surprises, surprises_md, write_surprises_md, IncidentReport, ReportV, SurpriseV,
};
use crate::internal_tools::{
    build_restart_instruction, internal_tool, is_internal_tool, restart_instruction, todo_of,
    todos, InternalToolOutcome, OutcomeV, TodoEntry, TodoStatus, TodoV,
};
use crate::json::{json_error, json_parse, json_write, jsons, obj3, obj3_v, Json, JsonV};
use crate::message::{Message, MessageV};
use crate::state::{call_id, call_name, id_of_call, name_of_call, StateV};
use crate::text::{
    dec, dec_text, opt_text, owned, same, starts_with, starts_with_str, trim, trim_str,
};
use vstd::prelude::*;

verus! {

// ---- todo_write

/// The entries that a list of JSON values describes, up to the `n`-th, or why one of them
/// describes none.
pub open spec fn todos_of(vs: Seq<JsonV>, n: int) -> Result<Seq<TodoV>, Seq<char>>
    decreases n,
{
    if n <= 0 {
        Ok(Seq::empty())
    } else {
        match todos_of(vs, n - 1) {
            Err(e) => Err(e),
            Ok(ts) => match todo_of(vs[n - 1]) {
                Ok(t) => Ok(ts.push(t)),
                Err(e) => Err("todos["@ + dec(n - 1) + "]: "@ + e),
            },
        }
    }
}

/// Whether one of the first `n` entries is in progress.
pub open spec fn in_progress_before(ts: Seq<TodoV>, n: int) -> bool {
    exists|j: int| 0 <= j < n && (#[trigger] ts[j]).status == TodoStatus::InProgress
}

/// The list with only the first entry in progress left in that state.
pub open spec fn one_in_progress(ts: Seq<TodoV>) -> Seq<TodoV> {
    Seq::new(
        ts.len(),
        |i: int|
            if ts[i].status == TodoStatus::InProgress && in_progress_before(ts, i) {
                TodoV { status: TodoStatus::Pending, ..ts[i] }
            } else {
                ts[i]
            },
    )
}

/// At most one entry of a written list is in progress, and it is the first that was given
/// so; nothing but the status of an entry changes.
pub proof fn lemma_at_most_one_in_progress(ts: Seq<TodoV>, i: int, j: int)
    requires
        0 <= i < ts.len(),
        0 <= j < ts.len(),
        one_in_progress(ts)[i].status == TodoStatus::InProgress,
        one_in_progress(ts)[j].status == TodoStatus::InProgress,
    ensures
        i == j,
        !in_progress_before(ts, i),
        one_in_progress(ts)[i] == ts[i],
{
    if i < j {
        assert(ts[i].status == TodoStatus::InProgress);
        assert(in_progress_before(ts, j));
    } else if j < i {
        assert(ts[j].status == TodoStatus::InProgress);
        assert(in_progress_before(ts, i));
    }
}

/// The entries that a list of JSON values describes.
fn read_todos(vs: &Vec<Json>) -> (r: Result<Vec<TodoEntry>, String>)
    ensures
        match r {
            Ok(ts) => todos_of(jsons(vs@), vs@.len() as int) == Ok::<Seq<TodoV>, Seq<char>>(
                todos(ts@),
            ),
            Err(e) => todos_of(jsons(vs@), vs@.len() as int) == Err::<Seq<TodoV>, Seq<char>>(e@),
        },
{
    let ghost js = jsons(vs@);
    let mut out: Vec<TodoEntry> = Vec::new();
    assert(todos(out@) =~= Seq::empty());
    let mut i: usize = 0;
    while i < vs.len()
        invariant
            i <= vs@.len(),
            js == jsons(vs@),
            todos_of(js, i as int) == Ok::<Seq<TodoV>, Seq<char>>(todos(out@)),
        decreases vs.len() - i,
    {
        assert(js[i as int] == vs@[i as int]@);
        match TodoEntry::from_json(&vs[i]) {
            Ok(t) => {
                let ghost before = out@;
                out.push(t);
                assert(todos(out@) =~= todos(before).push(t@));
            },
            Err(e) => {
                let mut text = owned("todos[");
                text.append(dec_text(i as u64).as_str());
                text.append("]: ");
                text.append(e.as_str());
                proof {
                    lemma_todos_error(js, i + 1, js.len() as int);
                }
                return Err(text);
            },
        }
        i = i + 1;
    }
    Ok(out)
}

/// An error in a prefix is the error of the whole.
proof fn lemma_todos_error(vs: Seq<JsonV>, k: int, n: int)
    requires
        0 <= k <= n,
        todos_of(vs, k) is Err,
    ensures
        todos_of(vs, n) == todos_of(vs, k),
    decreases n - k,
{
    if k < n {
        lemma_todos_error(vs, k, n - 1);
    }
}

/// Leaves only the first entry in progress in that state.
fn keep_one_in_progress(entries: Vec<TodoEntry>) -> (r: Vec<TodoEntry>)
    ensures
        todos(r@) == one_in_progress(todos(entries@)),
{
    let ghost ts = todos(entries@);
    let mut out: Vec<TodoEntry> = Vec::new();
    let mut seen = false;
    let mut i: usize = 0;
    while i < entries.len()
        invariant
            i <= entries@.len(),
            ts == todos(entries@),
            out@.len() == i,
            seen == in_progress_before(ts, i as int),
            forall|j: int| 0 <= j < i ==> (#[trigger] out@[j])@ == one_in_progress(ts)[j],
        decreases entries.len() - i,
    {
        let mut e = entries[i].clone();
        assert(ts[i as int] == entries@[i as int]@);
        if e.status == TodoStatus::InProgress {
            if seen {
                e.status = TodoStatus::Pending;
            } else {
                seen = true;
                assert(ts[i as int].status == TodoStatus::InProgress);
            }
        }
        proof {
            if seen && in_progress_before(ts, i + 1) && ts[i as int].status
                != TodoStatus::InProgress {
                let j = choose|j: int|
                    0 <= j < i + 1 && (#[trigger] ts[j]).status == TodoStatus::InProgress;
                assert(j < i);
            }
        }
        out.push(e);
        i = i + 1;
    }
    assert(todos(out@) =~= one_in_progress(ts));
    out
}

// ---- restart_from_file

/// How the file work of a restart went.
#[derive(Debug)]
pub enum RestartIo {
    /// The instruction file could not be read.
    ReadFailed(String),
    /// The context could not be written as JSON.
    SerializeFailed(String),
    /// The backup could not be written.
    WriteFailed(String),
    /// The backup is written; this is the content of the instruction file.
    Done(String),
}

/// The model of a [`RestartIo`].
pub enum RestartIoV {
    ReadFailed(Seq<char>),
    SerializeFailed(Seq<char>),
    WriteFailed(Seq<char>),
    Done(Seq<char>),
}

impl View for RestartIo {
    type V = RestartIoV;

    open spec fn view(&self) -> RestartIoV {
        match self {
            RestartIo::ReadFailed(e) => RestartIoV::ReadFailed(e@),
            RestartIo::SerializeFailed(e) => RestartIoV::SerializeFailed(e@),
            RestartIo::WriteFailed(e) => RestartIoV::WriteFailed(e@),
            RestartIo::Done(c) => RestartIoV::Done(c@),
        }
    }
}

/// What the world outside supplies to a tool call.
#[derive(Debug)]
pub struct ToolWorld {
    /// Epoch milliseconds.
    pub now_ms: u64,
    /// The share of the context window that is used, in percent without decimals.
    pub percent: String,
    /// The directory that the process runs in.
    pub cwd: String,
    /// Where the backup of a restart is kept.
    pub backup_path: String,
    pub restart: RestartIo,
}

/// A path as the agent resolves it: absolute paths and those that begin with `~` as they
/// are, others in the working directory.
pub open spec fn resolved_path(path: Seq<char>, working_dir: Seq<char>, cwd: Seq<char>) -> Seq<char> {
    if starts_with(path, "/"@) || starts_with(path, "~"@) {
        path
    } else {
        (if working_dir == "."@ {
            cwd
        } else {
            working_dir
        }) + "/"@ + path
    }
}

/// A path as the agent resolves it.
pub fn resolve_against_working_dir(path: &str, working_dir: &str, cwd: &str) -> (r: String)
    ensures
        r@ == resolved_path(path@, working_dir@, cwd@),
{
    if starts_with_str(path, "/") || starts_with_str(path, "~") {
        return owned(path);
    }
    let mut out = if same(working_dir, ".") {
        owned(cwd)
    } else {
        owned(working_dir)
    };
    out.append("/");
    out.append(path);
    out
}

/// The name of the instruction file that a restart asks for.
pub open spec fn restart_file(args: JsonV) -> Option<Seq<char>> {
    match args.str_at("filename"@) {
        Some(s) => if trim(s).len() > 0 {
            Some(trim(s))
        } else {
            None
        },
        None => None,
    }
}

/// The name of the instruction file that a restart asks for, if it names one.
pub fn restart_filename(args: &Json) -> (r: Option<String>)
    ensures
        opt_text(r) == restart_file(args@),
{
    match args.str_at("filename") {
        Some(s) => {
            let t = trim_str(s);
            if t.as_str().is_empty() {
                None
            } else {
                Some(t)
            }
        },
        None => None,
    }
}

/// The report of a surprise, without tool calls.
pub open spec fn report_of(s: SurpriseV) -> ReportV {
    ReportV {
        kind: s.kind,
        trigger: s.trigger,
        trace: if s.trace.len() == 0 {
            "(no trace available)"@
        } else {
            s.trace
        },
        metrics: seq![("kind"@, s.kind)],
        calls: Seq::empty(),
    }
}

pub open spec fn ok_outcome(text: Seq<char>) -> OutcomeV {
    OutcomeV { text, success: true, reset: false }
}

pub open spec fn err_outcome(text: Seq<char>) -> OutcomeV {
    OutcomeV { text, success: false, reset: false }
}

impl AgentV {
    /// Asks for the analysis of the first `n` incidents.
    pub open spec fn analyze(self, s: Seq<SurpriseV>, n: int) -> AgentV
        decreases n,
    {
        if n <= 0 {
            self
        } else {
            self.analyze(s, n - 1).emit(EffectV::Analyze(report_of(s[n - 1])))
        }
    }

    /// Writes the recorded incidents to a file and asks for their analysis.
    pub open spec fn flush_surprises(self, a: &AgentActor) -> AgentV {
        let s = self.conv.surprises;
        let w = self.with_conv(StateV { surprises: Seq::empty(), ..self.conv });
        if s.len() == 0 {
            w
        } else {
            let v = w.emit(
                EffectV::SaveFile { path: "tmp/surprises.md"@, text: surprises_md(s) },
            );
            if a.llm_config is Some {
                v.analyze(s, s.len() as int)
            } else {
                v
            }
        }
    }

    /// The conversation wiped, with one instruction.
    pub open spec fn restart_with(self, content: Seq<char>) -> AgentV {
        let c = self.conv.clear_for_restart().add_user(restart_instruction(content));
        self.with_conv(StateV { iteration_count: 0, ..c })
    }

    pub open spec fn restart(self, a: &AgentActor, args: JsonV, world: &ToolWorld) -> (
        AgentV,
        OutcomeV,
    ) {
        match restart_file(args) {
            None => (self, err_outcome("Missing 'filename' parameter"@)),
            Some(f) => {
                let path = resolved_path(f, a.config.working_dir@, world.cwd@);
                match world.restart@ {
                    RestartIoV::ReadFailed(e) => (
                        self,
                        err_outcome("Failed to read restart file '"@ + path + "': "@ + e),
                    ),
                    RestartIoV::SerializeFailed(e) => (
                        self,
                        err_outcome("Failed to serialize context backup: "@ + e),
                    ),
                    RestartIoV::WriteFailed(e) => (
                        self,
                        err_outcome(
                            "Failed to write context backup to '"@ + world.backup_path@ + "': "@
                                + e,
                        ),
                    ),
                    RestartIoV::Done(content) => (
                        self.flush_surprises(a).restart_with(content),
                        OutcomeV {
                            text: "Restarted from '"@ + path + "'. Backup: "@ + world.backup_path@
                                + ". Continuing with injected instructions."@,
                            success: true,
                            reset: true,
                        },
                    ),
                }
            },
        }
    }

    /// The parent's context saved, and a fresh one with the task.
    pub open spec fn call_subagent(self, a: &AgentActor, args: JsonV) -> (AgentV, OutcomeV) {
        match args.str_at("task"@) {
            None => (self, err_outcome("Missing 'task' parameter"@)),
            Some(task) => if trim(task).len() == 0 {
                (self, err_outcome("Missing 'task' parameter"@))
            } else {
                let depth = (self.conv.depth + 1) as usize;
                let c = StateV {
                    depth,
                    active_system: args.str_at("system_prompt"@),
                    ..self.conv.clear_for_restart()
                };
                let pushed = AgentV {
                    conv: c,
                    stack: self.stack.push(
                        FrameV { state: self.conv, system: a.system_message@ },
                    ),
                    ..self
                };
                let said = pushed.say(
                    a,
                    "[subagent] starting: "@ + task,
                    "SubagentStart"@,
                    depth,
                );
                (
                    said.with_conv(
                        StateV { iteration_count: 0, in_flight: true, ..c.add_user(task) },
                    ),
                    OutcomeV {
                        text: "Subagent context initialized."@,
                        success: true,
                        reset: true,
                    },
                )
            },
        }
    }

    pub open spec fn todo_write(self, args: JsonV) -> (AgentV, OutcomeV) {
        match args.at("todos"@).as_array() {
            None => (self, err_outcome("Missing 'todos' array"@)),
            Some(vs) => match todos_of(vs, vs.len() as int) {
                Err(e) => (self, err_outcome(e)),
                Ok(ts) => (
                    self.with_conv(StateV { todos: one_in_progress(ts), ..self.conv }),
                    ok_outcome(crate::internal_tools::rendered(one_in_progress(ts))),
                ),
            },
        }
    }

    pub open spec fn set_reminder(self, args: JsonV) -> (AgentV, OutcomeV) {
        match (args.str_at("message"@), args.at("threshold_tokens"@).as_u64()) {
            (None, _) => (self, err_outcome("Missing 'message'"@)),
            (Some(_), None) => (self, err_outcome("Missing 'threshold_tokens'"@)),
            (Some(m), Some(t)) => (
                self.with_conv(
                    StateV {
                        reminders: self.conv.reminders.push(
                            crate::state::ReminderV { threshold: t, message: m },
                        ),
                        ..self.conv
                    },
                ),
                ok_outcome(
                    "Context reminder set: will inject when usage exceeds "@ + dec(t as int)
                        + " tokens."@,
                ),
            ),
        }
    }

    pub open spec fn set_wake_up(self, args: JsonV, now_ms: u64) -> (AgentV, OutcomeV) {
        match (args.str_at("message"@), args.at("delay_seconds"@).as_u64()) {
            (None, _) => (self, err_outcome("Missing 'message'"@)),
            (Some(_), None) => (self, err_outcome("Missing 'delay_seconds'"@)),
            (Some(m), Some(d)) => {
                let every = args.at("interval_seconds"@).as_u64();
                (
                    self.with_conv(self.conv.add_wake_up(now_ms / 1000, d, every, m)),
                    ok_outcome(
                        match every {
                            Some(i) => "Cron wake-up scheduled: fires in "@ + dec(d as int)
                                + "s, repeats every "@ + dec(i as int) + "s."@,
                            None => "One-shot wake-up scheduled: fires in "@ + dec(d as int)
                                + " seconds."@,
                        },
                    ),
                )
            },
        }
    }

    /// What an internal tool does, and what it answers.
    pub open spec fn internal(
        self,
        a: &AgentActor,
        name: Seq<char>,
        args: JsonV,
        world: &ToolWorld,
    ) -> (AgentV, OutcomeV) {
        if name == "todo_write"@ {
            self.todo_write(args)
        } else if name == "todo_read"@ {
            (
                self,
                ok_outcome(
                    crate::internal_tools::rendered(self.conv.todos) + "\n"@
                        + self.conv.status_line(world.percent@),
                ),
            )
        } else if name == "restart_from_file"@ {
            self.restart(a, args, world)
        } else if name == "call_subagent"@ {
            self.call_subagent(a, args)
        } else if name == "set_context_reminder"@ {
            self.set_reminder(args)
        } else if name == "schedule_wake_up"@ {
            self.set_wake_up(args, world.now_ms)
        } else {
            (self, err_outcome("Unknown internal tool: "@ + name))
        }
    }
}

impl AgentActor {
    /// Writes the recorded incidents to a file and asks for their analysis.
    fn flush_surprises(&self, st: &mut AgentState)
        ensures
            final(st)@ == old(st)@.flush_surprises(self),
    {
        let list = st.conv.take_surprises();
        let ghost s = surprises(list@);
        assert(s.len() == list@.len());
        if list.len() == 0 {
            return ;
        }
        let md = write_surprises_md(list.as_slice());
        st.emit(Effect::SaveFile { path: owned("tmp/surprises.md"), text: md });
        let ghost saved = st@;
        if self.llm_config.is_some() {
            let mut i: usize = 0;
            while i < list.len()
                invariant
                    i <= list@.len(),
                    s == surprises(list@),
                    st@ == saved.analyze(s, i as int),
                decreases list.len() - i,
            {
                let none: Vec<String> = Vec::new();
                assert(crate::text::texts(none@) =~= Seq::empty());
                let report = IncidentReport::from_surprise(&list[i], none.as_slice());
                assert(s[i as int] == list@[i as int]@);
                assert(report@ == report_of(s[i as int]));
                st.emit(Effect::Analyze(report));
                i = i + 1;
            }
        }
    }

    /// Wipes the conversation and goes on from an instruction file, once the context is
    /// backed up. Where the file or the backup fails, nothing is lost.
    fn handle_restart_from_file(&self, st: &mut AgentState, args: &Json, world: &ToolWorld) -> (r:
        InternalToolOutcome)
        ensures
            (final(st)@, r@) == old(st)@.restart(self, args@, world),
    {
        let filename = match restart_filename(args) {
            Some(f) => f,
            None => return InternalToolOutcome::err("Missing 'filename' parameter"),
        };
        let path = resolve_against_working_dir(
            filename.as_str(),
            self.config.working_dir.as_str(),
            world.cwd.as_str(),
        );
        match &world.restart {
            RestartIo::ReadFailed(e) => {
                let mut text = owned("Failed to read restart file '");
                text.append(path.as_str());
                text.append("': ");
                text.append(e.as_str());
                InternalToolOutcome::err(text.as_str())
            },
            RestartIo::SerializeFailed(e) => {
                let mut text = owned("Failed to serialize context backup: ");
                text.append(e.as_str());
                InternalToolOutcome::err(text.as_str())
            },
            RestartIo::WriteFailed(e) => {
                let mut text = owned("Failed to write context backup to '");
                text.append(world.backup_path.as_str());
                text.append("': ");
                text.append(e.as_str());
                InternalToolOutcome::err(text.as_str())
            },
            RestartIo::Done(content) => {
                self.flush_surprises(st);
                st.conv.clear_for_restart();
                st.conv.add_user_message(build_restart_instruction(content.as_str()).as_str());
                st.conv.reset_iteration();
                let mut text = owned("Restarted from '");
                text.append(path.as_str());
                text.append("'. Backup: ");
                text.append(world.backup_path.as_str());
                text.append(". Continuing with injected instructions.");
                InternalToolOutcome::ok("").with_reset(text.as_str())
            },
        }
    }

    /// Saves the parent's context and starts a subagent on a task. The subagent has its
    /// own system message where the call gives one, else that of the settings.
    fn handle_call_subagent(&self, st: &mut AgentState, args: &Json) -> (r: InternalToolOutcome)
        requires
            old(st)@.conv.depth < usize::MAX,
        ensures
            (final(st)@, r@) == old(st)@.call_subagent(self, args@),
    {
        let task = match args.str_at("task") {
            Some(t) => t,
            None => return InternalToolOutcome::err("Missing 'task' parameter"),
        };
        if trim_str(task).as_str().is_empty() {
            return InternalToolOutcome::err("Missing 'task' parameter");
        }
        let prompt = match args.str_at("system_prompt") {
            Some(p) => Some(owned(p)),
            None => None,
        };
        let frame = SubagentFrame {
            saved_state: st.conv.clone(),
            saved_system_message: self.system_message.clone(),
        };
        let ghost before = st.stack@;
        st.stack.push(frame);
        assert(frames(st.stack@) =~= frames(before).push(frame@));
        st.conv.clear_for_restart();
        st.conv.subagent_depth = st.conv.subagent_depth + 1;
        st.conv.active_system_message = prompt;
        let depth: usize = st.conv.subagent_depth;
        let mut text = owned("[subagent] starting: ");
        text.append(task);
        self.say(st, text.as_str(), "SubagentStart", depth);
        st.conv.add_user_message(task);
        st.conv.reset_iteration();
        st.conv.inference_in_flight = true;
        InternalToolOutcome::ok("").with_reset("Subagent context initialized.")
    }

    fn handle_todo_write(&self, st: &mut AgentState, args: &Json) -> (r: InternalToolOutcome)
        ensures
            (final(st)@, r@) == old(st)@.todo_write(args@),
    {
        let list = match args.get("todos") {
            Some(v) => v.as_array(),
            None => None,
        };
        match list {
            None => InternalToolOutcome::err("Missing 'todos' array"),
            Some(vs) => match read_todos(vs) {
                Err(e) => InternalToolOutcome::err(e.as_str()),
                Ok(entries) => {
                    let text = st.conv.set_todos(keep_one_in_progress(entries));
                    InternalToolOutcome::ok(text.as_str())
                },
            },
        }
    }

    fn handle_set_reminder(&self, st: &mut AgentState, args: &Json) -> (r: InternalToolOutcome)
        ensures
            (final(st)@, r@) == old(st)@.set_reminder(args@),
    {
        let message = match args.str_at("message") {
            Some(m) => m,
            None => return InternalToolOutcome::err("Missing 'message'"),
        };
        let threshold = match args.get("threshold_tokens") {
            Some(v) => v.as_u64(),
            None => None,
        };
        match threshold {
            None => InternalToolOutcome::err("Missing 'threshold_tokens'"),
            Some(t) => {
                st.conv.add_context_reminder(t, message);
                let mut text = owned("Context reminder set: will inject when usage exceeds ");
                text.append(dec_text(t).as_str());
                text.append(" tokens.");
                InternalToolOutcome::ok(text.as_str())
            },
        }
    }

    fn handle_set_wake_up(&self, st: &mut AgentState, args: &Json, now_ms: u64) -> (r:
        InternalToolOutcome)
        ensures
            (final(st)@, r@) == old(st)@.set_wake_up(args@, now_ms),
    {
        let message = match args.str_at("message") {
            Some(m) => m,
            None => return InternalToolOutcome::err("Missing 'message'"),
        };
        let delay = match args.get("delay_seconds") {
            Some(v) => v.as_u64(),
            None => None,
        };
        let every = match args.get("interval_seconds") {
            Some(v) => v.as_u64(),
            None => None,
        };
        match delay {
            None => InternalToolOutcome::err("Missing 'delay_seconds'"),
            Some(d) => match every {
                Some(i) => {
                    st.conv.add_cron_wake_up(now_ms / 1000, d, i, message);
                    let mut text = owned("Cron wake-up scheduled: fires in ");
                    text.append(dec_text(d).as_str());
                    text.append("s, repeats every ");
                    text.append(dec_text(i).as_str());
                    text.append("s.");
                    InternalToolOutcome::ok(text.as_str())
                },
                None => {
                    st.conv.add_one_shot_wake_up(now_ms / 1000, d, message);
                    let mut text = owned("One-shot wake-up scheduled: fires in ");
                    text.append(dec_text(d).as_str());
                    text.append(" seconds.");
                    InternalToolOutcome::ok(text.as_str())
                },
            },
        }
    }

    /// Performs an internal tool on the agent's own state.
    pub fn handle_internal_tool(
        &self,
        st: &mut AgentState,
        name: &str,
        args: &Json,
        world: &ToolWorld,
    ) -> (r: InternalToolOutcome)
        requires
            old(st)@.conv.depth < usize::MAX,
        ensures
            (final(st)@, r@) == old(st)@.internal(self, name@, args@, world),
    {
        if same(name, "todo_write") {
            self.handle_todo_write(st, args)
        } else if same(name, "todo_read") {
            let mut text = st.conv.todos_render();
            text.append("\n");
            text.append(st.conv.context_status_line(world.percent.as_str()).as_str());
            InternalToolOutcome::ok(text.as_str())
        } else if same(name, "restart_from_file") {
            self.handle_restart_from_file(st, args, world)
        } else if same(name, "call_subagent") {
            self.handle_call_subagent(st, args)
        } else if same(name, "set_context_reminder") {
            self.handle_set_reminder(st, args)
        } else if same(name, "schedule_wake_up") {
            self.handle_set_wake_up(st, args, world.now_ms)
        } else {
            let mut text = owned("Unknown internal tool: ");
            text.append(name);
            InternalToolOutcome::err(text.as_str())
        }
    }
}

// ---- dispatch

/// Whether the agent handles calls of the tool itself.
pub open spec fn handled_inline(name: Seq<char>) -> bool {
    internal_tool(name) || name == "call_subagent"@
}

/// The arguments of a call as text: their own, or the JSON text of what they are.
pub open spec fn args_text(tc: JsonV) -> Seq<char> {
    let v = tc.at("function"@).at("arguments"@);
    match v.as_str() {
        Some(s) => s,
        None => json_write(v),
    }
}

/// What the user interface learns of a call.
pub open spec fn call_status(id: Seq<char>, name: Seq<char>, args: Seq<char>) -> JsonV {
    obj3_v(
        "id"@,
        JsonV::Str(id),
        "name"@,
        JsonV::Str(name),
        "text"@,
        JsonV::Str("Calling tool: "@ + name + "("@ + args + ")"@),
    )
}

/// One line on the result of a call.
pub open spec fn result_line(success: bool, name: Seq<char>, id: Seq<char>, text: Seq<char>) -> Seq<char> {
    "  [tool_"@ + (if success {
        "result"@
    } else {
        "error"@
    }) + "] "@ + name + "("@ + id + ") => "@ + text
}

impl AgentV {
    /// Tells the user interface of a call.
    pub open spec fn announce_call(self, a: &AgentActor, id: Seq<char>, name: Seq<char>, args: Seq<
        char,
    >) -> AgentV {
        let m = MessageV::new(
            a.stream_output_topic@,
            a.name(),
            call_status(id, name, args),
        ).with_type("Info"@);
        self.emit(EffectV::Publish(crate::agent::stamped(m, self.conv.depth)))
    }

    /// Answers a call that an internal tool has handled, and goes on.
    pub open spec fn conclude_call(
        self,
        a: &AgentActor,
        id: Seq<char>,
        name: Seq<char>,
        o: OutcomeV,
        now_ms: u64,
    ) -> AgentV {
        let c = if o.reset {
            self.conv.resolve(id)
        } else {
            self.conv.add_tool_result(id, name, o.text, o.success).resolve(id)
        };
        self.with_conv(c).say(
            a,
            result_line(o.success, name, id, o.text),
            "LlmToolResult"@,
            c.depth,
        ).advance(a, now_ms)
    }

    /// Dispatches the `i`-th call of a batch: arguments that are no JSON are answered with
    /// an error, an internal tool is handled at once, any other call goes to its runner.
    pub open spec fn dispatch(
        self,
        a: &AgentActor,
        i: int,
        tc: JsonV,
        world: &ToolWorld,
    ) -> AgentV {
        let id = call_id(i, tc);
        let name = call_name(tc);
        let text = args_text(tc);
        match json_parse(text) {
            None => self.with_conv(
                self.conv.add_tool_result(
                    id,
                    name,
                    "Error parsing arguments: "@ + json_error(text),
                    false,
                ).resolve(id),
            ),
            Some(args) => {
                let w = self.announce_call(a, id, name, text);
                if handled_inline(name) {
                    let (v, o) = w.internal(a, name, args, world);
                    v.conclude_call(a, id, name, o, world.now_ms)
                } else {
                    w.emit(
                        EffectV::Publish(
                            MessageV::new(
                                "tool:"@ + name + ":execute"@,
                                a.name(),
                                obj3_v(
                                    "tool_call_id"@,
                                    JsonV::Str(id),
                                    "tool_name"@,
                                    JsonV::Str(name),
                                    "arguments"@,
                                    args,
                                ),
                            ),
                        ),
                    )
                }
            },
        }
    }
}

/// Internal tools keep the depth of every conversation the number of its parents.
pub proof fn lemma_internal_wf(
    w: AgentV,
    a: &AgentActor,
    name: Seq<char>,
    args: JsonV,
    world: &ToolWorld,
)
    requires
        w.wf(),
        w.conv.depth < usize::MAX,
    ensures
        w.internal(a, name, args, world).0.wf(),
        w.internal(a, name, args, world).0.stack.len() <= w.stack.len() + 1,
{
    let f = w.flush_surprises(a);
    lemma_flush_keeps(w, a);
    let (v, o) = w.call_subagent(a, args);
    if v.stack.len() == w.stack.len() + 1 {
        assert forall|i: int| 0 <= i < v.stack.len() implies (#[trigger] v.stack[i]).state.depth
            == i by {
            if i < w.stack.len() {
                assert(v.stack[i] == w.stack[i]);
            }
        }
    }
}

proof fn lemma_analyze_keeps(w: AgentV, s: Seq<SurpriseV>, n: int)
    ensures
        w.analyze(s, n).conv == w.conv,
        w.analyze(s, n).stack == w.stack,
    decreases n,
{
    if n > 0 {
        lemma_analyze_keeps(w, s, n - 1);
    }
}

proof fn lemma_flush_keeps(w: AgentV, a: &AgentActor)
    ensures
        w.flush_surprises(a).stack == w.stack,
        w.flush_surprises(a).conv == (StateV { surprises: Seq::empty(), ..w.conv }),
{
    let s = w.conv.surprises;
    let d = w.with_conv(StateV { surprises: Seq::empty(), ..w.conv });
    let v = d.emit(EffectV::SaveFile { path: "tmp/surprises.md"@, text: surprises_md(s) });
    lemma_analyze_keeps(v, s, s.len() as int);
    if s.len() == 0 {
        assert(s =~= Seq::empty());
    }
}

/// Whether the agent handles calls of the tool itself.
pub fn is_handled_inline(name: &str) -> (r: bool)
    ensures
        r == handled_inline(name@),
{
    is_internal_tool(name) || same(name, "call_subagent")
}

/// The arguments of a call as text.
pub fn call_args_text(tc: &Json) -> (r: String)
    ensures
        r@ == args_text(tc@),
{
    if let Some(f) = tc.get("function") {
        if let Some(v) = f.get("arguments") {
            return match v.as_str() {
                Some(s) => owned(s),
                None => v.write(),
            };
        }
    }
    Json::Null.write()
}

/// One line on the result of a call.
pub fn result_text(success: bool, name: &str, id: &str, text: &str) -> (r: String)
    ensures
        r@ == result_line(success, name@, id@, text@),
{
    let mut out = owned("  [tool_");
    out.append(
        if success {
            "result"
        } else {
            "error"
        },
    );
    out.append("] ");
    out.append(name);
    out.append("(");
    out.append(id);
    out.append(") => ");
    out.append(text);
    out
}

impl AgentActor {
    fn announce_call(&self, st: &mut AgentState, id: &str, name: &str, args: &str)
        ensures
            final(st)@ == old(st)@.announce_call(self, id@, name@, args@),
    {
        let mut text = owned("Calling tool: ");
        text.append(name);
        text.append("(");
        text.append(args);
        text.append(")");
        let status = obj3(
            "id",
            Json::text(id),
            "name",
            Json::text(name),
            "text",
            Json::Str(text),
        );
        let msg = Message::new(
            self.stream_output_topic.as_str(),
            crate::actor::Actor::id(self).as_str(),
            status,
        ).with_type("Info");
        let depth: usize = st.conv.subagent_depth;
        st.emit(Effect::Publish(self.stamp_depth(msg, depth)));
    }

    /// Dispatches the `i`-th call of a batch. Where the call is a restart, `world` says how
    /// the file work went.
    pub fn dispatch_tool_call(&self, st: &mut AgentState, i: usize, tc: &Json, world: &ToolWorld)
        requires
            old(st)@.wf(),
            old(st)@.conv.depth < usize::MAX,
        ensures
            final(st)@ == old(st)@.dispatch(self, i as int, tc@, world),
            final(st)@.wf(),
    {
        let id = id_of_call(i, tc);
        let name = name_of_call(tc);
        let text = call_args_text(tc);
        let args = match Json::read(text.as_str()) {
            Ok(a) => a,
            Err(e) => {
                let mut reason = owned("Error parsing arguments: ");
                reason.append(e.as_str());
                st.conv.add_tool_result(id.as_str(), name, reason.as_str(), false);
                st.conv.resolve_tool_call(id.as_str());
                return ;
            },
        };
        self.announce_call(st, id.as_str(), name, text.as_str());
        if is_handled_inline(name) {
            proof {
                lemma_internal_wf(st@, self, name@, args@, world);
            }
            let outcome = self.handle_internal_tool(st, name, &args, world);
            if !outcome.context_reset {
                st.conv.add_tool_result(
                    id.as_str(),
                    name,
                    outcome.result_text.as_str(),
                    outcome.success,
                );
            }
            st.conv.resolve_tool_call(id.as_str());
            let depth: usize = st.conv.subagent_depth;
            let line = result_text(
                outcome.success,
                name,
                id.as_str(),
                outcome.result_text.as_str(),
            );
            self.say(st, line.as_str(), "LlmToolResult", depth);
            self.advance_turn_if_resolved(st, world.now_ms);
        } else {
            let mut topic = owned("tool:");
            topic.append(name);
            topic.append(":execute");
            let payload = obj3(
                "tool_call_id",
                Json::Str(id),
                "tool_name",
                Json::text(name),
                "arguments",
                args,
            );
            let msg = Message::new(
                topic.as_str(),
                crate::actor::Actor::id(self).as_str(),
                payload,
            );
            st.emit(Effect::Publish(msg));
        }
    }
}

} // verus!
