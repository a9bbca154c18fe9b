//! Five-whys root cause analysis of the surprises of a session.
//!
//! A surprise is an unexpected incident: a stuck model, a loop across turns, the
//! iteration limit. On a context refresh each becomes an [`IncidentReport`] for the
//! analysis prompt.

use crate::bytes::{byte_len, byte_prefix, cuts_at, is_cut, measure_prefix, take_bytes};
use crate::calendar::{format_utc_datetime, utc_text};
use crate::config::{LlmConfig, LlmConfigV};
use crate::text::{
    alphanumeric, ascii_lower, clone_strings, dec, dec_text, is_alphanumeric, join, join_strings,
    owned, take_chars, take_text, texts, to_ascii_lower, to_chars,
};
use vstd::prelude::*;

verus! {

pub const PROMPT_HEAD: &'static str = "You are performing a Five-Whys root cause analysis on a coding agent\nthat got stuck. Your job is to find the STRUCTURAL cause — not to\nassign blame or say \"be more careful.\"\n\n## Incident\nType: ";

pub const PROMPT_TRIGGER: &'static str = "\nTrigger: ";

pub const PROMPT_METRICS: &'static str = "\n\n## Metrics\n";

pub const PROMPT_CALLS: &'static str = "## Recent tool calls (what the agent was attempting)\n";

pub const PROMPT_TRACE: &'static str = "\n\n## Trace (the actual repeated/stuck reasoning, truncated)\n\"\"\"\n";

pub const PROMPT_TASK: &'static str = "\n\"\"\"\n\n## Your task\n1. Ask \"why did this happen?\" and answer FACTUALLY. Verify against the\n   trace above. If you can't verify, say so explicitly.\n2. For each answer, ask \"why?\" again. Branch if there are multiple\n   independent causes. Go 3-5 levels deep.\n3. Stop at bedrock: a structural property that can be changed (missing\n   guardrail, bad default, absent check, missing prompt rule) OR an\n   external boundary OR an accepted tradeoff.\n4. Every bedrock node MUST produce an action item that results in a\n   concrete artifact: a code fix, a config change, a system-message\n   addition, a new test. NOT \"be more careful.\"\n5. Output as structured markdown (see format below).\n\n## Output format\n# Five-Whys: {short descriptive title}\n\n## What happened\n{1-3 sentence factual summary}\n\n## Why tree\nPROBLEM: {problem}\n├─ WHY: {answer — verified by [evidence]}\n│  └─ WHY: {deeper answer}\n│     → BEDROCK: {structural cause | external boundary | accepted tradeoff}\n│        ACTION: {concrete artifact: file, diff description}\n├─ WHY: {branch 2 if multiple causes}\n│  └─ ...\n→ BEDROCK: ...\n\n## Action items\n1. {artifact-producing action} — target: {file or config}\n2. ...\n\n## Root cause hash\n{single line: 3-5 keywords capturing the structural cause}";

/// Something unexpected during a session.
#[derive(Debug)]
pub struct Surprise {
    /// "within_stream_loop", "idle_timeout", "cross_turn_loop" or "max_iterations".
    pub kind: String,
    /// What set it off, for the analysis prompt.
    pub trigger: String,
    /// The text that was repeating or stuck, truncated.
    pub trace_text: String,
    /// Epoch milliseconds when it was recorded.
    pub timestamp_ms: u64,
}

/// The model of a [`Surprise`].
pub struct SurpriseV {
    pub kind: Seq<char>,
    pub trigger: Seq<char>,
    pub trace: Seq<char>,
    pub ms: u64,
}

impl View for Surprise {
    type V = SurpriseV;

    open spec fn view(&self) -> SurpriseV {
        SurpriseV {
            kind: self.kind@,
            trigger: self.trigger@,
            trace: self.trace_text@,
            ms: self.timestamp_ms,
        }
    }
}

impl Clone for Surprise {
    fn clone(&self) -> (r: Surprise)
        ensures
            r@ == self@,
    {
        Surprise {
            kind: self.kind.clone(),
            trigger: self.trigger.clone(),
            trace_text: self.trace_text.clone(),
            timestamp_ms: self.timestamp_ms,
        }
    }
}

/// The models of the surprises of `s`.
pub open spec fn surprises(s: Seq<Surprise>) -> Seq<SurpriseV> {
    s.map_values(|x: Surprise| x@)
}

/// `t`, cut after `n` characters, with a note where it was cut.
pub open spec fn truncated(t: Seq<char>, n: int) -> Seq<char> {
    if t.len() > n {
        t.take(n) + "...[truncated]"@
    } else {
        t
    }
}

/// `t`, cut after `n` characters, with a note where it was cut.
pub fn truncate_text(t: &str, n: usize) -> (r: String)
    ensures
        r@ == truncated(t@, n as int),
{
    if t.unicode_len() > n {
        let mut out = take_text(t, n);
        out.append("...[truncated]");
        out
    } else {
        owned(t)
    }
}

/// `std::time::SystemTime::now` in milliseconds since the epoch; nothing is known of it.
#[verifier::external_body]
pub(crate) fn now_millis() -> (r: u64) {
    std::time::SystemTime::now().duration_since(std::time::SystemTime::UNIX_EPOCH).map_or(
        0,
        |d| d.as_millis() as u64,
    )
}

impl Surprise {
    /// A surprise recorded at a given instant.
    pub fn at(kind: &str, trigger: &str, timestamp_ms: u64) -> (r: Surprise)
        ensures
            r@ == (SurpriseV { kind: kind@, trigger: trigger@, trace: Seq::empty(), ms: timestamp_ms }),
    {
        Surprise {
            kind: owned(kind),
            trigger: owned(trigger),
            trace_text: String::new(),
            timestamp_ms,
        }
    }

    /// A surprise recorded now.
    pub fn new(kind: &str, trigger: &str) -> (r: Surprise)
        ensures
            r@ == (SurpriseV { kind: kind@, trigger: trigger@, trace: Seq::empty(), ms: r.timestamp_ms }),
    {
        Surprise::at(kind, trigger, now_millis())
    }

    /// The surprise with the text that was repeating or stuck, truncated to 8000
    /// characters.
    pub fn with_trace(self, text: &str) -> (r: Surprise)
        ensures
            r@ == (SurpriseV { trace: truncated(text@, 8000), ..self@ }),
    {
        Surprise { trace_text: truncate_text(text, 8000), ..self }
    }

    /// The instant as UTC `YYYYmmdd-HHMMSS`, for file names.
    pub fn file_timestamp(&self) -> (r: String)
        ensures
            r@ == utc_text(self.timestamp_ms as int / 1000),
    {
        format_utc_datetime(self.timestamp_ms / 1000)
    }
}

/// What the analysis prompt is made from.
#[derive(Debug)]
pub struct IncidentReport {
    pub kind: String,
    pub trigger: String,
    pub trace_text: String,
    /// Quantitative data: name and value.
    pub metrics: Vec<(String, String)>,
    /// Recent tool calls: what the agent was attempting.
    pub recent_tool_calls: Vec<String>,
}

/// The model of an [`IncidentReport`].
pub struct ReportV {
    pub kind: Seq<char>,
    pub trigger: Seq<char>,
    pub trace: Seq<char>,
    pub metrics: Seq<(Seq<char>, Seq<char>)>,
    pub calls: Seq<Seq<char>>,
}

/// The characters of every pair of `v`.
pub open spec fn pairs(v: Seq<(String, String)>) -> Seq<(Seq<char>, Seq<char>)> {
    v.map_values(|p: (String, String)| (p.0@, p.1@))
}

impl View for IncidentReport {
    type V = ReportV;

    open spec fn view(&self) -> ReportV {
        ReportV {
            kind: self.kind@,
            trigger: self.trigger@,
            trace: self.trace_text@,
            metrics: pairs(self.metrics@),
            calls: texts(self.recent_tool_calls@),
        }
    }
}

/// The first `n` characters of `s`, put in kebab case: letters and digits in lower case,
/// one hyphen for each run of anything else.
pub open spec fn kebab(s: Seq<char>, n: int) -> Seq<char>
    decreases n,
{
    if n <= 0 {
        Seq::empty()
    } else if alphanumeric(s[n - 1]) {
        kebab(s, n - 1).push(ascii_lower(s[n - 1]))
    } else if n > 1 && !alphanumeric(s[n - 2]) {
        kebab(s, n - 1)
    } else {
        kebab(s, n - 1).push('-')
    }
}

/// `s` without the hyphens at its end.
pub open spec fn strip_hyphens(s: Seq<char>) -> Seq<char>
    decreases s.len(),
{
    if s.len() > 0 && s.last() == '-' {
        strip_hyphens(s.drop_last())
    } else {
        s
    }
}

/// The slug of a report before it is cut to length.
pub open spec fn long_slug(r: ReportV) -> Seq<char> {
    let s = r.kind + "-"@ + r.trigger;
    strip_hyphens(kebab(s, s.len() as int))
}

/// Whether the slug is short enough, or can be cut after 80 bytes.
pub open spec fn slug_cuts(r: ReportV) -> bool {
    byte_len(long_slug(r)) <= 80 || cuts_at(long_slug(r), 80)
}

/// The slug of a report: at most 80 bytes.
pub open spec fn slug_of(r: ReportV) -> Seq<char> {
    byte_prefix(long_slug(r), 80)
}

/// The path of a report's analysis at a given instant.
pub open spec fn path_of(r: ReportV, secs: int) -> Seq<char> {
    "tmp/five-whys/"@ + slug_of(r) + "-"@ + utc_text(secs) + ".md"@
}

impl IncidentReport {
    /// The report of a surprise, with the tool calls that led to it.
    pub fn from_surprise(surprise: &Surprise, tool_calls: &[String]) -> (r: IncidentReport)
        ensures
            r@ == (ReportV {
                kind: surprise@.kind,
                trigger: surprise@.trigger,
                trace: if surprise@.trace.len() == 0 {
                    "(no trace available)"@
                } else {
                    surprise@.trace
                },
                metrics: seq![("kind"@, surprise@.kind)],
                calls: texts(tool_calls@),
            }),
    {
        let trace = if surprise.trace_text.as_str().is_empty() {
            owned("(no trace available)")
        } else {
            surprise.trace_text.clone()
        };
        let metrics: Vec<(String, String)> = vec![(owned("kind"), surprise.kind.clone())];
        assert(pairs(metrics@) =~= seq![("kind"@, surprise@.kind)]);
        IncidentReport {
            kind: surprise.kind.clone(),
            trigger: surprise.trigger.clone(),
            trace_text: trace,
            metrics,
            recent_tool_calls: clone_strings(tool_calls),
        }
    }

    /// The slug before it is cut to length.
    fn full_slug(&self) -> (r: String)
        ensures
            r@ == long_slug(self@),
    {
        let mut combined = self.kind.clone();
        combined.append("-");
        combined.append(self.trigger.as_str());
        let v = to_chars(combined.as_str());
        let mut slug: Vec<char> = Vec::new();
        let mut i: usize = 0;
        let mut prev_hyphen = false;
        while i < v.len()
            invariant
                i <= v@.len(),
                slug@ == kebab(v@, i as int),
                prev_hyphen == (i > 0 && !alphanumeric(v@[i - 1])),
            decreases v.len() - i,
        {
            let c = v[i];
            if is_alphanumeric(c) {
                slug.push(to_ascii_lower(c));
                prev_hyphen = false;
            } else if !prev_hyphen {
                slug.push('-');
                prev_hyphen = true;
            }
            i = i + 1;
        }
        let ghost whole = slug@;
        while slug.len() > 0 && slug[slug.len() - 1] == '-'
            invariant
                strip_hyphens(slug@) == strip_hyphens(whole),
            decreases slug.len(),
        {
            let ghost before = slug@;
            let last = slug.pop();
            assert(slug@ =~= before.drop_last());
        }
        crate::text::from_chars(&slug)
    }

    /// Whether the slug is short enough, or can be cut after 80 bytes.
    pub fn has_slug(&self) -> (r: bool)
        ensures
            r == slug_cuts(self@),
    {
        let full = self.full_slug();
        let v = to_chars(full.as_str());
        let (k, used) = measure_prefix(&v, 80);
        proof {
            assert(v@.take(v@.len() as int) =~= v@);
            if k < v@.len() {
                crate::bytes::lemma_byte_len_monotone(v@, k + 1, v@.len() as int);
            }
        }
        k == v.len() || is_cut(full.as_str(), 80)
    }

    /// Kebab-case slug from kind and trigger, for file names: at most 80 bytes.
    pub fn slug(&self) -> (r: String)
        requires
            slug_cuts(self@),
        ensures
            r@ == slug_of(self@),
    {
        take_bytes(self.full_slug().as_str(), 80)
    }

    /// The path of this report's analysis at a given instant.
    pub fn file_path_at(&self, secs: u64) -> (r: String)
        requires
            slug_cuts(self@),
        ensures
            r@ == path_of(self@, secs as int),
    {
        let mut out = owned("tmp/five-whys/");
        out.append(self.slug().as_str());
        out.append("-");
        out.append(format_utc_datetime(secs).as_str());
        out.append(".md");
        out
    }

    /// The path of this report's analysis: `tmp/five-whys/{slug}-{timestamp}.md`.
    pub fn file_path(&self) -> (r: String)
        requires
            slug_cuts(self@),
        ensures
            exists|secs: int| r@ == #[trigger] path_of(self@, secs),
    {
        self.file_path_at(now_millis() / 1000)
    }
}

/// One line for each of the first `n` metrics.
pub open spec fn metric_lines(m: Seq<(Seq<char>, Seq<char>)>, n: int) -> Seq<char>
    decreases n,
{
    if n <= 0 {
        Seq::empty()
    } else {
        metric_lines(m, n - 1) + ("- "@ + m[n - 1].0 + ": "@ + m[n - 1].1 + "\n"@)
    }
}

/// The tool calls, numbered.
pub open spec fn numbered(calls: Seq<Seq<char>>) -> Seq<Seq<char>> {
    Seq::new(calls.len(), |i: int| dec(i + 1) + ". "@ + calls[i])
}

/// The analysis prompt of a report.
pub open spec fn prompt_of(r: ReportV) -> Seq<char> {
    PROMPT_HEAD@ + r.kind + PROMPT_TRIGGER@ + r.trigger + PROMPT_METRICS@ + metric_lines(
        r.metrics,
        r.metrics.len() as int,
    ) + PROMPT_CALLS@ + (if r.calls.len() == 0 {
        "(none)"@
    } else {
        join(numbered(r.calls), "\n"@)
    }) + PROMPT_TRACE@ + truncated(r.trace, 8000) + PROMPT_TASK@
}

fn metrics_text(m: &Vec<(String, String)>) -> (r: String)
    ensures
        r@ == metric_lines(pairs(m@), m@.len() as int),
{
    let mut out = String::new();
    for i in 0..m.len()
        invariant
            out@ == metric_lines(pairs(m@), i as int),
    {
        let mut line = owned("- ");
        line.append(m[i].0.as_str());
        line.append(": ");
        line.append(m[i].1.as_str());
        line.append("\n");
        out.append(line.as_str());
    }
    out
}

fn calls_text(calls: &Vec<String>) -> (r: String)
    ensures
        r@ == if calls@.len() == 0 {
            "(none)"@
        } else {
            join(numbered(texts(calls@)), "\n"@)
        },
{
    if calls.len() == 0 {
        return owned("(none)");
    }
    let mut lines: Vec<String> = Vec::new();
    for i in 0..calls.len()
        invariant
            lines@.len() == i,
            calls@.len() <= usize::MAX,
            forall|j: int| 0 <= j < i ==> (#[trigger] lines@[j])@ == numbered(texts(calls@))[j],
    {
        let mut line = dec_text(i as u64 + 1);
        line.append(". ");
        line.append(calls[i].as_str());
        lines.push(line);
    }
    assert(texts(lines@) =~= numbered(texts(calls@)));
    join_strings(&lines, "\n")
}

/// The analysis prompt of a report.
pub fn build_five_whys_prompt(report: &IncidentReport) -> (r: String)
    ensures
        r@ == prompt_of(report@),
{
    let mut out = owned(PROMPT_HEAD);
    out.append(report.kind.as_str());
    out.append(PROMPT_TRIGGER);
    out.append(report.trigger.as_str());
    out.append(PROMPT_METRICS);
    out.append(metrics_text(&report.metrics).as_str());
    out.append(PROMPT_CALLS);
    out.append(calls_text(&report.recent_tool_calls).as_str());
    out.append(PROMPT_TRACE);
    out.append(truncate_text(report.trace_text.as_str(), 8000).as_str());
    out.append(PROMPT_TASK);
    out
}

/// The section of one surprise.
pub open spec fn surprise_section(i: int, s: SurpriseV) -> Seq<char> {
    "## Surprise "@ + dec(i + 1) + " — "@ + utc_text(s.ms as int / 1000) + "\n- **Kind**: "@ + s.kind
        + "\n- **Trigger**: "@ + s.trigger + "\n"@ + (if s.trace.len() == 0 {
        Seq::empty()
    } else {
        "- **Trace (first 500 chars)**:\n```\n"@ + take_chars(s.trace, 500) + "\n```\n"@
    }) + "\n"@
}

/// The sections of the first `n` surprises.
pub open spec fn surprise_sections(s: Seq<SurpriseV>, n: int) -> Seq<char>
    decreases n,
{
    if n <= 0 {
        Seq::empty()
    } else {
        surprise_sections(s, n - 1) + surprise_section(n - 1, s[n - 1])
    }
}

/// All recorded surprises as markdown; nothing where there are none.
pub open spec fn surprises_md(s: Seq<SurpriseV>) -> Seq<char> {
    if s.len() == 0 {
        Seq::empty()
    } else {
        "# Session Surprises\n\nRecorded during the session ("@ + dec(s.len() as int)
            + " incidents):\n\n"@ + surprise_sections(s, s.len() as int)
    }
}

fn section_text(i: usize, s: &Surprise) -> (r: String)
    requires
        i < usize::MAX,
    ensures
        r@ == surprise_section(i as int, s@),
{
    let mut trace = String::new();
    if !s.trace_text.as_str().is_empty() {
        trace = owned("- **Trace (first 500 chars)**:\n```\n");
        trace.append(take_text(s.trace_text.as_str(), 500).as_str());
        trace.append("\n```\n");
    }
    let mut out = owned("## Surprise ");
    out.append(dec_text(i as u64 + 1).as_str());
    out.append(" — ");
    out.append(s.file_timestamp().as_str());
    out.append("\n- **Kind**: ");
    out.append(s.kind.as_str());
    out.append("\n- **Trigger**: ");
    out.append(s.trigger.as_str());
    out.append("\n");
    out.append(trace.as_str());
    out.append("\n");
    out
}

/// All recorded surprises as a readable markdown file; nothing where there are none.
pub fn write_surprises_md(list: &[Surprise]) -> (r: String)
    ensures
        r@ == surprises_md(surprises(list@)),
{
    if list.len() == 0 {
        return String::new();
    }
    let mut sections = String::new();
    let mut i: usize = 0;
    while i < list.len()
        invariant
            i <= list@.len() <= usize::MAX,
            sections@ == surprise_sections(surprises(list@), i as int),
        decreases list.len() - i,
    {
        sections.append(section_text(i, &list[i]).as_str());
        i = i + 1;
    }
    let mut out = owned("# Session Surprises\n\nRecorded during the session (");
    out.append(dec_text(list.len() as u64).as_str());
    out.append(" incidents):\n\n");
    out.append(sections.as_str());
    out
}

/// The settings for an analysis: those of the agent, but cooler and with room for the report.
pub open spec fn analysis_settings(c: LlmConfigV) -> LlmConfigV {
    LlmConfigV { temperature: "0.3"@, max_tokens: 4096, ..c }
}

/// The settings for an analysis.
pub fn analysis_config(config: &LlmConfig) -> (r: LlmConfig)
    ensures
        r@ == analysis_settings(config@),
{
    let mut c = config.clone();
    c.temperature = owned("0.3");
    c.max_tokens = 4096;
    c
}

/// The file that stands in for an analysis that failed.
pub fn failed_analysis_text(error: &str, report: &IncidentReport) -> (r: String)
    ensures
        r@ == "# Analysis failed: "@ + error@ + "\n\n## IncidentReport\nkind: "@ + report@.kind
            + "\ntrigger: "@ + report@.trigger,
{
    let mut out = owned("# Analysis failed: ");
    out.append(error);
    out.append("\n\n## IncidentReport\nkind: ");
    out.append(report.kind.as_str());
    out.append("\ntrigger: ");
    out.append(report.trigger.as_str());
    out
}

} // verus!
