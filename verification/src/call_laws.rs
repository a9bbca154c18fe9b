//! What a call hands back, whatever the call's arguments.

use crate::bash_tool::{BashPlan, BashTool};
use crate::file_tools::{
    size_of_text, EditFileTool, EditOutcome, EditPlan, PathKind, ReadFileTool, WriteFileTool,
    WritePlan,
};
use crate::json::{Json, JsonV};
use crate::patterns::{glob_problem, regex_problem};
use crate::search_tools::{
    check_root, GlobSearch, GlobTool, GrepSearch, GrepTool, SearchPlan,
};
use crate::text::{contains, dec, join, lines_from, occurrences, replaced_from, starts_with, texts};
use crate::web_fetch::{
    clamp_timeout, convert_content, is_cloudflare_challenge, is_image, is_textual, maybe_cache_large, mime,
    FetchPlan, WebFetchTool,
};
use vstd::prelude::*;

verus! {

// ---- fetching

/// A wait stays between a second and two minutes, and one that is asked for in these bounds is
/// kept.
pub proof fn lemma_waits(secs: u64, r: u64)
    requires
        call_ensures(clamp_timeout, (secs,), r),
    ensures
        1 <= r <= 120,
        1 <= secs <= 120 ==> r == secs,
        secs > 120 ==> r == 120,
        secs == 0 ==> r == 1,
{
}

/// Two waits keep their order.
pub proof fn lemma_longer_waits(a: u64, b: u64, r: u64, s: u64)
    requires
        a <= b,
        call_ensures(clamp_timeout, (a,), r),
        call_ensures(clamp_timeout, (b,), s),
    ensures
        r <= s,
{
}

/// Only a refusal that says it is a challenge is one.
pub proof fn lemma_challenges(status: u16, mitigated: Option<&str>, r: bool)
    requires
        call_ensures(is_cloudflare_challenge, (status, mitigated), r),
    ensures
        r ==> status == 403 && mitigated is Some && mitigated.unwrap()@ == "challenge"@,
        mitigated is None ==> !r,
        status == 403 && mitigated is Some && mitigated.unwrap()@ == "challenge"@ ==> r,
{
}

/// A fetch goes to the address that was given, in the format that was named or as Markdown, and
/// waits as long as asked, or 30 seconds.
pub proof fn lemma_fetches(t: &WebFetchTool, args: &Json, r: Result<FetchPlan, String>)
    requires
        call_ensures(WebFetchTool::plan, (t, args), r),
    ensures
        r matches Ok(p) ==> {
            &&& args@.get("url"@) == Some(JsonV::Str(p.url@))
            &&& p.format@ == "markdown"@ || p.format@ == "text"@ || p.format@ == "html"@
            &&& args@.get("format"@) == Some(JsonV::Str(p.format@)) || p.format@ == "markdown"@
            &&& args@.get("timeout"@) is None ==> p.timeout_secs == 30
            &&& args@.get("timeout"@) matches Some(v) ==> (v matches JsonV::Int(n) ==> 0 <= n
                <= u64::MAX ==> p.timeout_secs == n)
        },
{
}

/// A response is taken where it succeeded, is not known to be above 5 MiB, and is no image; a
/// failed one is told with its status and the address, whatever else it says.
pub proof fn lemma_responses(
    t: &WebFetchTool,
    p: &FetchPlan,
    success: bool,
    status: &str,
    length: Option<u64>,
    content_type: &str,
    r: Result<(), String>,
)
    requires
        call_ensures(WebFetchTool::accept, (t, p, success, status, length, content_type), r),
    ensures
        r is Ok ==> success && (length matches Some(n) ==> n <= 5 * 1024 * 1024),
        !success ==> (r matches Err(e) && e@ == "Fetch failed: HTTP "@ + status@ + " for "@
            + p.url@),
        success && (length matches Some(n) ==> n <= 5 * 1024 * 1024) ==> (r is Ok <==> !is_image(
            mime(content_type@),
        ) && is_textual(mime(content_type@))),
{
}

/// What is no page, and what is asked for as it is, is handed back unchanged.
pub proof fn lemma_raw_bodies(raw: &str, content_type: &str, format: &str, r: Result<String, String>)
    requires
        call_ensures(convert_content, (raw, content_type, format), r),
        format@ == "html"@ || (!contains(content_type@, "text/html"@)
            && !starts_with(
            mime(content_type@),
            "application/xhtml"@,
        )),
    ensures
        r matches Ok(s) && s@ == raw@,
{
    reveal_strlit("html");
    reveal_strlit("text");
    assert("html"@[0] == 'h' && "text"@[0] == 't');
}

/// A text of up to 32 KiB is handed on as it is, whether or not it could have been stored; a
/// larger one that could not be stored is an error.
pub proof fn lemma_small_texts_are_kept(
    content: String,
    stored: Result<&str, &str>,
    r: Result<String, String>,
)
    requires
        call_ensures(maybe_cache_large, (content, stored), r),
    ensures
        size_of_text(content@) <= 32 * 1024 ==> (r matches Ok(t) && t@
            == content@),
        size_of_text(content@) > 32 * 1024 ==> (stored is Ok <==> r is Ok),
        size_of_text(content@) > 32 * 1024 ==> (stored matches Err(e) ==> (
        r matches Err(m) && m@ == e@)),
{
}

// ---- commands

/// A command runs as it was given, where it was told to or else in the tool's directory.
pub proof fn lemma_commands(t: &BashTool, args: &Json, r: Result<BashPlan, String>)
    requires
        call_ensures(BashTool::plan, (t, args), r),
    ensures
        r matches Ok(p) ==> {
            &&& args@.get("command"@) == Some(JsonV::Str(p.command@))
            &&& args@.get("working_dir"@) is None ==> p.work_dir@ == t.dir()
            &&& args@.get("working_dir"@) matches Some(d) ==> (d matches JsonV::Str(s) ==> p.work_dir@
                == s)
            &&& args@.get("timeout"@) is None ==> p.timeout_ms == 120_000
        },
        args@.get("command"@) is None ==> r is Err,
{
}

/// A command needs a directory to run in.
pub proof fn lemma_command_directories(t: &BashTool, dir: &str, kind: PathKind, r: Result<(), String>)
    requires
        call_ensures(BashTool::check, (t, dir, kind), r),
    ensures
        r is Ok <==> kind == PathKind::Directory,
        kind == PathKind::Missing ==> (r matches Err(e) && e@
            == "Execution failed: working directory not found: "@ + dir@),
        kind == PathKind::File ==> (r matches Err(e) && e@
            == "Execution failed: working directory is not a directory: "@ + dir@),
{
}

/// A command that took too long is told by how long it was given.
pub proof fn lemma_late_commands(t: &BashTool, p: &BashPlan, r: String)
    requires
        call_ensures(BashTool::timed_out, (t, p), r),
    ensures
        r@ == "Execution failed: Command timed out after "@ + dec(p.timeout_ms as int)
            + " milliseconds"@,
{
}

// ---- files

/// A file is read where it is there, is a file and holds at most 1 MiB.
pub proof fn lemma_files_read(
    t: &ReadFileTool,
    path: &str,
    kind: PathKind,
    size: u64,
    r: Result<(), String>,
)
    requires
        call_ensures(ReadFileTool::check, (t, path, kind, size), r),
    ensures
        r is Ok <==> kind == PathKind::File && size <= 1024 * 1024,
        kind == PathKind::Missing ==> (r matches Err(e) && e@ == "Read failed: file not found: "@
            + path@),
        kind == PathKind::Directory ==> (r matches Err(e) && e@
            == "Read failed: path is a directory: "@ + path@),
        kind == PathKind::File && size > 1024 * 1024 ==> (r matches Err(e) && e@
            == "Read failed: file size "@ + dec(size as int) + " bytes exceeds max of "@ + dec(
            1_048_576,
        ) + " bytes"@),
{
}

/// With no bounds given, every line of the file is shown; whatever the bounds, what is shown is
/// lines of the file that follow each other there.
pub proof fn lemma_lines_shown(t: &ReadFileTool, args: &Json, content: &str, r: String)
    requires
        call_ensures(ReadFileTool::select, (t, args, content), r),
    ensures
        ({
            let lines = lines_from(content@, 0);
            exists|a: int, b: int|
                0 <= a <= b <= lines.len() && r@ == #[trigger] join(lines.subrange(a, b), "\n"@)
        }),
{
}

/// What is written is the content that was given, and at most 10 MiB of it.
pub proof fn lemma_files_written(
    t: &WriteFileTool,
    args: &Json,
    cwd: Result<&str, &str>,
    r: Result<WritePlan, String>,
)
    requires
        call_ensures(WriteFileTool::plan, (t, args, cwd), r),
    ensures
        r matches Ok(w) ==> args@.get("content"@) == Some(JsonV::Str(w.content@))
            && size_of_text(w.content@) <= 10 * 1024 * 1024,
        args@.get("content"@) is None ==> r is Err,
{
}

/// Nothing is written over a directory; a file that is missing or there is written.
pub proof fn lemma_directories_stay(t: &WriteFileTool, path: &str, kind: PathKind, r: Result<(), String>)
    requires
        call_ensures(WriteFileTool::check, (t, path, kind), r),
    ensures
        r is Err <==> kind == PathKind::Directory,
        r matches Err(e) ==> e@ == "Write failed: path is a directory: "@ + path@,
{
}

/// A write is told by the size of what was written and by where.
pub proof fn lemma_writes_are_told(t: &WriteFileTool, p: &WritePlan, r: String)
    requires
        call_ensures(WriteFileTool::done, (t, p), r),
    ensures
        r@ == "Successfully wrote "@ + dec(size_of_text(p.content@))
            + " bytes to "@ + p.path@,
{
}

/// An edit puts one text for another that is neither empty nor the same.
pub proof fn lemma_edits_change(
    t: &EditFileTool,
    args: &Json,
    cwd: Result<&str, &str>,
    r: Result<EditPlan, String>,
)
    requires
        call_ensures(EditFileTool::plan, (t, args, cwd), r),
    ensures
        r matches Ok(w) ==> {
            &&& args@.get("old_content"@) == Some(JsonV::Str(w.old_content@))
            &&& args@.get("new_content"@) == Some(JsonV::Str(w.new_content@))
            &&& w.old_content@.len() > 0
            &&& w.old_content@ != w.new_content@
        },
{
}

/// An edit needs a file.
pub proof fn lemma_edits_need_a_file(t: &EditFileTool, path: &str, kind: PathKind, r: Result<(), String>)
    requires
        call_ensures(EditFileTool::check, (t, path, kind), r),
    ensures
        r is Ok <==> kind == PathKind::File,
        kind == PathKind::Missing ==> (r matches Err(e) && e@ == "Edit failed: file not found: "@
            + path@),
        kind == PathKind::Directory ==> (r matches Err(e) && e@
            == "Edit failed: path is a directory: "@ + path@),
{
}

/// An edit is made where the text occurs, at every place, and the answer tells at how many.
pub proof fn lemma_edits_are_made(
    t: &EditFileTool,
    p: &EditPlan,
    content: &str,
    r: Result<EditOutcome, String>,
)
    requires
        call_ensures(EditFileTool::apply, (t, p, content), r),
    ensures
        r is Ok <==> contains(content@, p.old_content@),
        r matches Ok(o) ==> o.content@ == replaced_from(
            content@,
            p.old_content@,
            p.new_content@,
            0,
        ) && o.message@ == "Successfully edited "@ + p.path@ + " ("@ + dec(
            occurrences(content@, p.old_content@, 0),
        ) + " replacement(s))"@,
        r matches Err(e) ==> e@ == "Edit failed: old_content not found in "@ + p.path@
            + ". Re-read the file to get the current content."@,
{
}

// ---- searching

/// A search needs a directory.
pub proof fn lemma_search_roots(root: &str, kind: PathKind, r: Result<(), String>)
    requires
        call_ensures(check_root, (root, kind), r),
    ensures
        r is Ok <==> kind == PathKind::Directory,
        kind == PathKind::Missing ==> (r matches Err(e) && e@
            == "Search failed: directory not found: "@ + root@),
        kind == PathKind::File ==> (r matches Err(e) && e@
            == "Search failed: path is not a directory: "@ + root@),
{
}

/// A search for files takes the pattern that was given, or every name, where it was told to or in
/// the tool's directory.
pub proof fn lemma_file_searches(t: &GlobTool, args: &Json, r: SearchPlan)
    requires
        call_ensures(GlobTool::plan, (t, args), r),
    ensures
        args@.get("pattern"@) is None ==> r.pattern@ == "*"@,
        args@.get("pattern"@) matches Some(v) ==> (v matches JsonV::Str(s) ==> r.pattern@ == s),
        args@.get("path"@) is None ==> r.root@ == t.dir(),
        args@.get("path"@) matches Some(v) ==> (v matches JsonV::Str(s) ==> r.root@ == s),
{
}

/// A search in files needs its pattern.
pub proof fn lemma_text_searches(t: &GrepTool, args: &Json, r: Result<SearchPlan, String>)
    requires
        call_ensures(GrepTool::plan, (t, args), r),
    ensures
        r is Ok <==> (args@.get("pattern"@) matches Some(v) && v is Str),
        r matches Ok(p) ==> {
            &&& args@.get("pattern"@) == Some(JsonV::Str(p.pattern@))
            &&& args@.get("path"@) is None ==> p.root@ == t.dir()
            &&& args@.get("path"@) matches Some(v) ==> (v matches JsonV::Str(s) ==> p.root@ == s)
        },
{
}

/// A search starts with nothing found, for the pattern and from the place that were asked for,
/// unless the pattern is at fault, which is then told.
pub proof fn lemma_searches_start(
    plan: SearchPlan,
    r: Result<GlobSearch, String>,
    s: Result<GrepSearch, String>,
)
    requires
        call_ensures(GlobSearch::new, (plan,), r),
        call_ensures(GrepSearch::new, (plan,), s),
    ensures
        r is Ok <==> glob_problem(plan.pattern@) is None,
        s is Ok <==> regex_problem(plan.pattern@) is None,
        r matches Ok(g) ==> g.results@.len() == 0 && g.pattern@ == plan.pattern@ && g.root@
            == plan.root@,
        s matches Ok(g) ==> g@.results.len() == 0 && g@.pattern == plan.pattern@ && g@.root
            == plan.root@,
        r matches Err(e) ==> e@ == "Search failed: Invalid glob pattern: "@ + glob_problem(
            plan.pattern@,
        ).unwrap(),
        s matches Err(e) ==> e@ == "Search failed: invalid regex: "@ + regex_problem(
            plan.pattern@,
        ).unwrap(),
{
    if let Ok(g) = r {
        assert(texts(g.results@).len() == g.results@.len());
    }
}

} // verus!
