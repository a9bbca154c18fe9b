//! The tools that look for files by name and by content.

use crate::file_tools::{concat, PathKind};
use crate::internal_tools::{param, param_v, schema};
use crate::json::{obj2, obj2_v, obj3_v, text_array1, text_array_v, Json, JsonV};
use crate::patterns::{compile_regex, glob_error, glob_match, glob_matches, glob_problem};
use crate::patterns::{regex_is_match, regex_matches, regex_pattern, regex_problem};
use crate::sorting::{sort_strings, sorted_texts};
use crate::text::{dec, dec_text, join, join_strings, lines_from, owned, split_lines, texts, trim};
use crate::text::trim_str;
use crate::tool::Tool;
use vstd::prelude::*;

verus! {

/// How many results a search brings at most.
pub const MAX_RESULTS: usize = 1000;

/// Whether a directory can be searched.
pub fn check_root(root: &str, kind: PathKind) -> (r: Result<(), String>)
    ensures
        match kind {
            PathKind::Missing => r matches Err(e) && e@ == "Search failed: directory not found: "@
                + root@,
            PathKind::File => r matches Err(e) && e@ == "Search failed: path is not a directory: "@
                + root@,
            PathKind::Directory => r is Ok,
        },
{
    match kind {
        PathKind::Missing => Err(concat("Search failed: directory not found: ", root)),
        PathKind::File => Err(concat("Search failed: path is not a directory: ", root)),
        PathKind::Directory => Ok(()),
    }
}

/// Finds files by their path.
#[derive(Debug)]
pub struct GlobTool {
    working_dir: String,
}

/// What to look for, and where.
#[derive(Debug)]
pub struct SearchPlan {
    pub pattern: String,
    pub root: String,
}

pub open spec fn glob_parameters() -> JsonV {
    obj2_v(
        "type"@,
        JsonV::Str("object"@),
        "properties"@,
        obj2_v(
            "pattern"@,
            param_v(
                "string"@,
                "Glob pattern for matching files (e.g., 'src/**/*.rs', '**/*.json'). Use ** for recursive search."@,
            ),
            "path"@,
            param_v(
                "string"@,
                "The root directory to search in. Defaults to current working directory."@,
            ),
        ),
    )
}

/// A search for files in progress.
#[derive(Debug)]
pub struct GlobSearch {
    pub pattern: String,
    pub root: String,
    pub results: Vec<String>,
}

/// Whether a path is one that the search looks for: wildcards stay within a path's part, and
/// letter case counts.
pub open spec fn is_found(pattern: Seq<char>, path: Seq<char>) -> bool {
    glob_matches(pattern, path, true, true, false)
}

/// What has been found, with one more path that is looked at: no more than a search brings.
pub open spec fn found_with(pattern: Seq<char>, found: Seq<Seq<char>>, path: Seq<char>) -> Seq<
    Seq<char>,
> {
    if is_found(pattern, path) && found.len() < MAX_RESULTS {
        found.push(path)
    } else {
        found
    }
}

/// What has been found after the first `n` of the paths.
pub open spec fn found_paths(
    pattern: Seq<char>,
    found: Seq<Seq<char>>,
    paths: Seq<Seq<char>>,
    n: int,
) -> Seq<Seq<char>>
    decreases n,
{
    if n <= 0 {
        found
    } else {
        found_with(pattern, found_paths(pattern, found, paths, n - 1), paths[n - 1])
    }
}

/// What a search for files is answered with.
pub open spec fn glob_report(pattern: Seq<char>, root: Seq<char>, found: Seq<Seq<char>>) -> Seq<
    char,
> {
    if found.len() == 0 {
        "No files found matching pattern: '"@ + pattern + "'\nSearched in: "@ + root
            + "\nTip: Use ** for recursive search (e.g., 'src/**/*.rs')"@
    } else {
        "Found "@ + dec(found.len() as int) + " file(s) matching '"@ + pattern + "':\n"@ + join(
            sorted_texts(found),
            "\n"@,
        )
    }
}

impl GlobTool {
    /// The directory that is searched where none is named.
    pub closed spec fn dir(&self) -> Seq<char> {
        self.working_dir@
    }

    pub fn new() -> (r: GlobTool)
        ensures
            r.dir() == "."@,
    {
        GlobTool { working_dir: owned(".") }
    }

    pub fn with_working_dir(working_dir: String) -> (r: GlobTool)
        ensures
            r.dir() == working_dir@,
    {
        GlobTool { working_dir }
    }

    /// What the arguments ask for.
    pub fn plan(&self, args: &Json) -> (r: SearchPlan)
        ensures
            r.pattern@ == args@.str_or("pattern"@, "*"@),
            r.root@ == args@.str_or("path"@, self.dir()),
    {
        SearchPlan {
            pattern: owned(args.str_or("pattern", "*")),
            root: owned(args.str_or("path", self.working_dir.as_str())),
        }
    }
}

impl GlobSearch {
    /// A search that has found nothing yet.
    pub fn new(plan: SearchPlan) -> (r: Result<GlobSearch, String>)
        ensures
            match r {
                Ok(s) => glob_problem(plan.pattern@) is None && s.pattern@ == plan.pattern@
                    && s.root@ == plan.root@ && texts(s.results@) == Seq::<Seq<char>>::empty(),
                Err(e) => glob_problem(plan.pattern@) is Some && e@
                    == "Search failed: Invalid glob pattern: "@ + glob_problem(
                    plan.pattern@,
                ).unwrap(),
            },
    {
        if let Some(e) = glob_error(plan.pattern.as_str()) {
            return Err(concat("Search failed: Invalid glob pattern: ", e.as_str()));
        }
        let results: Vec<String> = Vec::new();
        assert(texts(results@) =~= Seq::empty());
        Ok(GlobSearch { pattern: plan.pattern, root: plan.root, results })
    }

    /// A file that the walk came by, its path relative to the root; whether the walk is to go on.
    /// One path after the other, what is found is what is found among them all; once the walk is
    /// to stop, no path after that would change it.
    pub fn offer(&mut self, path: &str) -> (r: bool)
        ensures
            final(self).pattern == old(self).pattern,
            final(self).root == old(self).root,
            texts(final(self).results@) == found_with(
                old(self).pattern@,
                texts(old(self).results@),
                path@,
            ),
            r == !(is_found(old(self).pattern@, path@) && old(self).results@.len() >= MAX_RESULTS),
            forall|had: Seq<Seq<char>>, paths: Seq<Seq<char>>, n: int|
                0 <= n < paths.len() && paths[n] == path@ && texts(old(self).results@)
                    == #[trigger] found_paths(old(self).pattern@, had, paths, n) ==> texts(
                    final(self).results@,
                ) == found_paths(old(self).pattern@, had, paths, n + 1) && (!r ==> texts(
                    final(self).results@,
                ) == found_paths(old(self).pattern@, had, paths, paths.len() as int)),
    {
        proof {
            assert forall|had: Seq<Seq<char>>, paths: Seq<Seq<char>>, n: int|
                0 <= n < paths.len() && texts(old(self).results@) == #[trigger] found_paths(
                    old(self).pattern@,
                    had,
                    paths,
                    n,
                ) && old(self).results@.len() >= MAX_RESULTS implies texts(old(self).results@)
                == found_paths(old(self).pattern@, had, paths, paths.len() as int) by {
                assert(texts(old(self).results@).len() == old(self).results@.len());
                lemma_full_search_stays(
                    old(self).pattern@,
                    had,
                    paths,
                    n,
                    paths.len() as int,
                );
            }
        }
        assert(texts(self.results@).len() == self.results@.len());
        if !glob_match(self.pattern.as_str(), path, true, true, false) {
            return true;
        }
        if self.results.len() < MAX_RESULTS {
            let ghost before = self.results@;
            self.results.push(owned(path));
            assert(texts(self.results@) =~= texts(before).push(path@));
            true
        } else {
            false
        }
    }

    /// What the search is answered with.
    pub fn report(&self) -> (r: String)
        ensures
            r@ == glob_report(self.pattern@, self.root@, texts(self.results@)),
    {
        if self.results.len() == 0 {
            let mut m = concat("No files found matching pattern: '", self.pattern.as_str());
            m.append("'\nSearched in: ");
            m.append(self.root.as_str());
            m.append("\nTip: Use ** for recursive search (e.g., 'src/**/*.rs')");
            return m;
        }
        let sorted = sort_strings(&self.results);
        let mut m = concat("Found ", dec_text(self.results.len() as u64).as_str());
        m.append(" file(s) matching '");
        m.append(self.pattern.as_str());
        m.append("':\n");
        m.append(join_strings(&sorted, "\n").as_str());
        m
    }
}

impl Tool for GlobTool {
    fn name(&self) -> (r: &str)
        ensures
            r@ == "glob"@,
    {
        "glob"
    }

    fn description(&self) -> (r: &str)
        ensures
            r@ == "List files matching a glob pattern. Respects .gitignore files. Limited to 1000 results. Use ** for recursive search."@,
    {
        "List files matching a glob pattern. Respects .gitignore files. Limited to 1000 results. Use ** for recursive search."
    }

    fn parameters(&self) -> (r: Json)
        ensures
            r@ == glob_parameters(),
    {
        obj2(
            "type",
            Json::text("object"),
            "properties",
            obj2(
                "pattern",
                param(
                    "string",
                    "Glob pattern for matching files (e.g., 'src/**/*.rs', '**/*.json'). Use ** for recursive search.",
                ),
                "path",
                param(
                    "string",
                    "The root directory to search in. Defaults to current working directory.",
                ),
            ),
        )
    }
}

/// Finds lines by their content.
#[derive(Debug)]
pub struct GrepTool {
    working_dir: String,
}

pub open spec fn grep_parameters() -> JsonV {
    obj3_v(
        "type"@,
        JsonV::Str("object"@),
        "properties"@,
        obj2_v(
            "pattern"@,
            param_v("string"@, "Regex pattern to search for in file contents."@),
            "path"@,
            param_v(
                "string"@,
                "The root directory to search in. Defaults to current working directory."@,
            ),
        ),
        "required"@,
        text_array_v(seq!["pattern"@]),
    )
}

/// A search for lines in progress.
#[derive(Debug)]
pub struct GrepSearch {
    pattern: String,
    root: String,
    re: regex::Regex,
    results: Vec<String>,
}

/// The model of a [`GrepSearch`].
#[verifier::ext_equal]
pub struct GrepV {
    pub pattern: Seq<char>,
    pub root: Seq<char>,
    pub results: Seq<Seq<char>>,
}

impl View for GrepSearch {
    type V = GrepV;

    closed spec fn view(&self) -> GrepV {
        GrepV { pattern: self.pattern@, root: self.root@, results: texts(self.results@) }
    }
}

/// A line that was found: the file, the line's number and the line.
pub open spec fn hit(path: Seq<char>, number: int, line: Seq<char>) -> Seq<char> {
    path + ":"@ + dec(number) + ": "@ + trim(line)
}

impl GrepV {
    /// The first `n` lines of a file.
    pub open spec fn lines(self, path: Seq<char>, lines: Seq<Seq<char>>, n: int) -> GrepV
        decreases n,
    {
        if n <= 0 {
            self
        } else {
            let g = self.lines(path, lines, n - 1);
            if regex_matches(g.pattern, lines[n - 1]) && g.results.len() < MAX_RESULTS {
                GrepV { results: g.results.push(hit(path, n, lines[n - 1])), ..g }
            } else {
                g
            }
        }
    }

    /// A file.
    pub open spec fn file(self, path: Seq<char>, content: Seq<char>) -> GrepV {
        let lines = lines_from(content, 0);
        self.lines(path, lines, lines.len() as int)
    }

    /// What the search is answered with.
    pub open spec fn report(self) -> Seq<char> {
        if self.results.len() == 0 {
            "No matches found for pattern '"@ + self.pattern + "' in "@ + self.root
        } else {
            "Found "@ + dec(self.results.len() as int) + " match(es):\n"@ + join(
                self.results,
                "\n"@,
            )
        }
    }
}

impl GrepTool {
    /// The directory that is searched where none is named.
    pub closed spec fn dir(&self) -> Seq<char> {
        self.working_dir@
    }

    pub fn new() -> (r: GrepTool)
        ensures
            r.dir() == "."@,
    {
        GrepTool { working_dir: owned(".") }
    }

    pub fn with_working_dir(working_dir: String) -> (r: GrepTool)
        ensures
            r.dir() == working_dir@,
    {
        GrepTool { working_dir }
    }

    /// What the arguments ask for.
    pub fn plan(&self, args: &Json) -> (r: Result<SearchPlan, String>)
        ensures
            match r {
                Ok(p) => args@.str_at("pattern"@) == Some(p.pattern@) && p.root@ == args@.str_or(
                    "path"@,
                    self.dir(),
                ),
                Err(e) => args@.str_at("pattern"@) is None && e@
                    == "Search failed: missing 'pattern' parameter"@,
            },
    {
        match args.str_at("pattern") {
            Some(p) => Ok(
                SearchPlan {
                    pattern: owned(p),
                    root: owned(args.str_or("path", self.working_dir.as_str())),
                },
            ),
            None => Err(owned("Search failed: missing 'pattern' parameter")),
        }
    }
}

impl GrepSearch {
    #[verifier::type_invariant]
    spec fn compiled(self) -> bool {
        regex_pattern(self.re) == self.pattern@
    }

    /// A search that has found nothing yet.
    pub fn new(plan: SearchPlan) -> (r: Result<GrepSearch, String>)
        ensures
            match r {
                Ok(s) => regex_problem(plan.pattern@) is None && s@ == (GrepV {
                    pattern: plan.pattern@,
                    root: plan.root@,
                    results: Seq::empty(),
                }),
                Err(e) => regex_problem(plan.pattern@) is Some && e@
                    == "Search failed: invalid regex: "@ + regex_problem(plan.pattern@).unwrap(),
            },
    {
        match compile_regex(plan.pattern.as_str()) {
            Ok(re) => {
                let results: Vec<String> = Vec::new();
                assert(texts(results@) =~= Seq::empty());
                Ok(GrepSearch { pattern: plan.pattern, root: plan.root, re, results })
            },
            Err(e) => Err(concat("Search failed: invalid regex: ", e.as_str())),
        }
    }

    /// A file that the walk came by: its path relative to the root, and its content.
    pub fn take_file(&mut self, path: &str, content: &str)
        ensures
            final(self)@ == old(self)@.file(path@, content@),
    {
        proof {
            use_type_invariant(&*self);
        }
        let lines = split_lines(content);
        let ghost lv = lines_from(content@, 0);
        let ghost start = self@;
        let mut results: Vec<String> = Vec::new();
        std::mem::swap(&mut results, &mut self.results);
        let mut i: usize = 0;
        let n: usize = lines.len();
        let ghost pat = self.pattern@;
        while i < n
            invariant
                i <= n,
                n == lines@.len(),
                lv == texts(lines@),
                pat == start.pattern,
                self.pattern@ == pat,
                self.root@ == start.root,
                regex_pattern(self.re) == pat,
                (GrepV { results: texts(results@), ..start }) == start.lines(path@, lv, i as int),
            decreases n - i,
        {
            assert(lv[i as int] == lines@[i as int]@);
            if regex_is_match(&self.re, lines[i].as_str()) && results.len() < MAX_RESULTS {
                let mut h = concat(path, ":");
                h.append(dec_text(i as u64 + 1).as_str());
                h.append(": ");
                h.append(trim_str(lines[i].as_str()).as_str());
                let ghost before = texts(results@);
                results.push(h);
                assert(texts(results@) =~= before.push(hit(path@, i + 1, lv[i as int])));
            }
            i = i + 1;
        }
        self.results = results;
    }

    /// What the search is answered with.
    pub fn report(&self) -> (r: String)
        ensures
            r@ == self@.report(),
    {
        if self.results.len() == 0 {
            let mut m = concat("No matches found for pattern '", self.pattern.as_str());
            m.append("' in ");
            m.append(self.root.as_str());
            return m;
        }
        let mut m = concat("Found ", dec_text(self.results.len() as u64).as_str());
        m.append(" match(es):\n");
        m.append(join_strings(&self.results, "\n").as_str());
        m
    }
}

impl Tool for GrepTool {
    fn name(&self) -> (r: &str)
        ensures
            r@ == "grep"@,
    {
        "grep"
    }

    fn description(&self) -> (r: &str)
        ensures
            r@ == "Search file contents using a regex pattern. Returns matching file paths and lines. Searches recursively."@,
    {
        "Search file contents using a regex pattern. Returns matching file paths and lines. Searches recursively."
    }

    fn parameters(&self) -> (r: Json)
        ensures
            r@ == grep_parameters(),
    {
        schema(
            obj2(
                "pattern",
                param("string", "Regex pattern to search for in file contents."),
                "path",
                param(
                    "string",
                    "The root directory to search in. Defaults to current working directory.",
                ),
            ),
            text_array1("pattern"),
        )
    }
}

/// A search for files that has found as much as it brings finds nothing more.
pub proof fn lemma_full_search_stays(
    pattern: Seq<char>,
    found: Seq<Seq<char>>,
    paths: Seq<Seq<char>>,
    i: int,
    n: int,
)
    requires
        0 <= i <= n <= paths.len(),
        found_paths(pattern, found, paths, i).len() >= MAX_RESULTS,
    ensures
        found_paths(pattern, found, paths, n) == found_paths(pattern, found, paths, i),
    decreases n - i,
{
    if i < n {
        lemma_full_search_stays(pattern, found, paths, i, n - 1);
    }
}

/// A search for files brings no more than its limit, and only what it looks for.
pub proof fn lemma_search_is_bounded(pattern: Seq<char>, paths: Seq<Seq<char>>, n: int)
    requires
        0 <= n <= paths.len(),
    ensures
        found_paths(pattern, Seq::empty(), paths, n).len() <= MAX_RESULTS,
        forall|i: int|
            0 <= i < found_paths(pattern, Seq::empty(), paths, n).len() ==> is_found(
                pattern,
                #[trigger] found_paths(pattern, Seq::empty(), paths, n)[i],
            ),
    decreases n,
{
    if n > 0 {
        lemma_search_is_bounded(pattern, paths, n - 1);
    }
}

/// A search for lines brings no more than its limit beyond what it had, and keeps what it
/// had.
pub proof fn lemma_grep_is_bounded(g: GrepV, path: Seq<char>, lines: Seq<Seq<char>>, n: int)
    requires
        g.results.len() <= MAX_RESULTS,
        0 <= n <= lines.len(),
    ensures
        g.lines(path, lines, n).results.len() <= MAX_RESULTS,
        g.lines(path, lines, n).results.len() >= g.results.len(),
        g.lines(path, lines, n).results.take(g.results.len() as int) == g.results,
        g.lines(path, lines, n).pattern == g.pattern,
    decreases n,
{
    if n > 0 {
        lemma_grep_is_bounded(g, path, lines, n - 1);
    }
    assert(g.lines(path, lines, n).results.take(g.results.len() as int) =~= g.results);
}

} // verus!
