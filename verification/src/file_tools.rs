//! The tools that read, write and edit files: what they make of their arguments and of what
//! a file holds, and what they answer.

use crate::bytes::{byte_count, byte_len, byte_prefix};
use crate::internal_tools::{param, param_v, schema};
use crate::json::{obj2, obj2_v, obj3, obj3_v, text_array1, text_array2, text_array3, text_array_v};
use crate::json::{Json, JsonV};
use crate::text::{contains, contains_str, dec, dec_text, join, join_strings, lines_from, occurrences};
use crate::text::text_result;
use crate::text::{owned, replace_all, replaced_from, same, split_lines, starts_with, starts_with_str};
use crate::text::{texts, to_chars};
use crate::tool::Tool;
use vstd::prelude::*;

verus! {

/// The largest file that is read, in bytes.
pub const MAX_READ_SIZE: u64 = 1_048_576;

/// The largest content that is written, in bytes.
pub const MAX_WRITE_SIZE: usize = 10_485_760;

/// What stands at a path.
#[derive(Clone, Copy, Debug, PartialEq, Eq, Structural)]
pub enum PathKind {
    Missing,
    Directory,
    File,
}

/// The current directory, or why it is not known.
pub open spec fn cwd_view(cwd: Result<&str, &str>) -> Result<Seq<char>, Seq<char>> {
    match cwd {
        Ok(d) => Ok(d@),
        Err(e) => Err(e@),
    }
}

/// The path that an argument names: absolute and home paths as they are, others under the
/// working directory, which may be the current one.
pub open spec fn named_path(
    args: JsonV,
    key: Seq<char>,
    working_dir: Seq<char>,
    cwd: Result<Seq<char>, Seq<char>>,
) -> Result<Seq<char>, Seq<char>> {
    match args.str_at(key) {
        None => Err("Missing '"@ + key + "' parameter"@),
        Some(p) => if starts_with(p, "/"@) || starts_with(p, "~"@) {
            Ok(p)
        } else if working_dir == "."@ {
            match cwd {
                Ok(d) => Ok(d + "/"@ + p),
                Err(e) => Err("Failed to get current dir: "@ + e),
            }
        } else {
            Ok(working_dir + "/"@ + p)
        },
    }
}

/// Two texts, one behind the other.
pub fn concat(a: &str, b: &str) -> (r: String)
    ensures
        r@ == a@ + b@,
{
    let mut s = owned(a);
    s.append(b);
    s
}

/// The path that an argument names.
pub fn resolve_path(args: &Json, key: &str, working_dir: &str, cwd: Result<&str, &str>) -> (r: Result<
    String,
    String,
>)
    ensures
        text_result(r) == named_path(args@, key@, working_dir@, cwd_view(cwd)),
{
    let p = match args.str_at(key) {
        Some(p) => p,
        None => {
            let mut e = concat("Missing '", key);
            e.append("' parameter");
            return Err(e);
        },
    };
    if starts_with_str(p, "/") || starts_with_str(p, "~") {
        return Ok(owned(p));
    }
    let dir = if same(working_dir, ".") {
        match cwd {
            Ok(d) => d,
            Err(e) => return Err(concat("Failed to get current dir: ", e)),
        }
    } else {
        working_dir
    };
    let mut path = concat(dir, "/");
    path.append(p);
    Ok(path)
}

/// Reads files.
#[derive(Debug)]
pub struct ReadFileTool {
    working_dir: String,
}

/// The lines of the file that the arguments ask for: from `start` to before `end`.
pub open spec fn line_range(args: JsonV, total: int) -> (int, int) {
    let wanted = match args.at("offset"@).as_u64() {
        Some(n) => n as usize as int,
        None => 1,
    };
    let last = if total > 1 {
        total
    } else {
        1
    };
    let offset = if wanted < 1 {
        1
    } else if wanted > last {
        last
    } else {
        wanted
    };
    let start = offset - 1;
    let end = match args.at("limit"@).as_u64() {
        Some(l) => if start + (l as usize) < total {
            start + (l as usize)
        } else {
            total
        },
        None => total,
    };
    (start, end)
}

pub open spec fn read_parameters() -> JsonV {
    obj3_v(
        "type"@,
        JsonV::Str("object"@),
        "properties"@,
        obj3_v(
            "file_path"@,
            param_v("string"@, "The absolute or relative path to the file to read."@),
            "offset"@,
            param_v("integer"@, "Optional 1-based starting line number. Defaults to 1."@),
            "limit"@,
            param_v(
                "integer"@,
                "Optional number of lines to read. Defaults to reading to end of file."@,
            ),
        ),
        "required"@,
        text_array_v(seq!["file_path"@]),
    )
}

impl ReadFileTool {
    /// The directory under which relative paths are looked up.
    pub closed spec fn dir(&self) -> Seq<char> {
        self.working_dir@
    }

    pub fn new() -> (r: ReadFileTool)
        ensures
            r.dir() == "."@,
    {
        ReadFileTool { working_dir: owned(".") }
    }

    pub fn with_working_dir(working_dir: String) -> (r: ReadFileTool)
        ensures
            r.dir() == working_dir@,
    {
        ReadFileTool { working_dir }
    }

    /// The file to read.
    pub fn plan(&self, args: &Json, cwd: Result<&str, &str>) -> (r: Result<String, String>)
        ensures
            text_result(r) == named_path(args@, "file_path"@, self.dir(), cwd_view(cwd)),
    {
        resolve_path(args, "file_path", self.working_dir.as_str(), cwd)
    }

    /// Whether the file can be read.
    pub fn check(&self, path: &str, kind: PathKind, size: u64) -> (r: Result<(), String>)
        ensures
            match kind {
                PathKind::Missing => r matches Err(e) && e@ == "Read failed: file not found: "@
                    + path@,
                PathKind::Directory => r matches Err(e) && e@
                    == "Read failed: path is a directory: "@ + path@,
                PathKind::File => if size > MAX_READ_SIZE {
                    r matches Err(e) && e@ == "Read failed: file size "@ + dec(size as int)
                        + " bytes exceeds max of "@ + dec(MAX_READ_SIZE as int) + " bytes"@
                } else {
                    r is Ok
                },
            },
    {
        match kind {
            PathKind::Missing => Err(concat("Read failed: file not found: ", path)),
            PathKind::Directory => Err(concat("Read failed: path is a directory: ", path)),
            PathKind::File => {
                if size > MAX_READ_SIZE {
                    let mut e = concat("Read failed: file size ", dec_text(size).as_str());
                    e.append(" bytes exceeds max of ");
                    e.append(dec_text(MAX_READ_SIZE).as_str());
                    e.append(" bytes");
                    Err(e)
                } else {
                    Ok(())
                }
            },
        }
    }

    /// The lines of the content that the arguments ask for.
    pub fn select(&self, args: &Json, content: &str) -> (r: String)
        ensures
            ({
                let lines = lines_from(content@, 0);
                let (start, end) = line_range(args@, lines.len() as int);
                0 <= start <= end <= lines.len() && r@ == join(lines.subrange(start, end), "\n"@)
            }),
    {
        let lines = split_lines(content);
        let total: usize = lines.len();
        let wanted: usize = match args.get("offset") {
            Some(v) => match v.as_u64() {
                Some(n) => n as usize,
                None => 1,
            },
            None => 1,
        };
        let last: usize = if total > 1 {
            total
        } else {
            1
        };
        let offset: usize = if wanted < 1 {
            1
        } else if wanted > last {
            last
        } else {
            wanted
        };
        let start: usize = offset - 1;
        let limit: Option<usize> = match args.get("limit") {
            Some(v) => match v.as_u64() {
                Some(n) => Some(n as usize),
                None => None,
            },
            None => None,
        };
        let end: usize = match limit {
            Some(l) => if l < total - start {
                start + l
            } else {
                total
            },
            None => total,
        };
        let ghost lv = lines_from(content@, 0);
        let mut part: Vec<String> = Vec::new();
        let mut i: usize = start;
        while i < end
            invariant
                start <= i <= end <= lines@.len(),
                part@.len() == i - start,
                forall|j: int| 0 <= j < i - start ==> (#[trigger] part@[j])@ == lines@[start + j]@,
            decreases end - i,
        {
            part.push(lines[i].clone());
            i = i + 1;
        }
        assert(lv == texts(lines@));
        assert(texts(part@) =~= lv.subrange(start as int, end as int));
        join_strings(&part, "\n")
    }
}

impl Tool for ReadFileTool {
    fn name(&self) -> (r: &str)
        ensures
            r@ == "read_file"@,
    {
        "read_file"
    }

    fn description(&self) -> (r: &str)
        ensures
            r@ == "Read the contents of a file. Supports optional offset (1-based line number) and limit (line count) for reading specific ranges. Maximum file size: 1 MiB."@,
    {
        "Read the contents of a file. Supports optional offset (1-based line number) and limit (line count) for reading specific ranges. Maximum file size: 1 MiB."
    }

    fn parameters(&self) -> (r: Json)
        ensures
            r@ == read_parameters(),
    {
        schema(
            obj3(
                "file_path",
                param("string", "The absolute or relative path to the file to read."),
                "offset",
                param("integer", "Optional 1-based starting line number. Defaults to 1."),
                "limit",
                param(
                    "integer",
                    "Optional number of lines to read. Defaults to reading to end of file.",
                ),
            ),
            text_array1("file_path"),
        )
    }
}

/// Writes files.
#[derive(Debug)]
pub struct WriteFileTool {
    working_dir: String,
}

/// A file to write.
#[derive(Debug)]
pub struct WritePlan {
    pub path: String,
    pub content: String,
}

pub open spec fn write_parameters() -> JsonV {
    obj3_v(
        "type"@,
        JsonV::Str("object"@),
        "properties"@,
        obj2_v(
            "file_path"@,
            param_v(
                "string"@,
                "The path to the file to write. Parent directories are created automatically."@,
            ),
            "content"@,
            param_v(
                "string"@,
                "The content to write to the file. Overwrites any existing content."@,
            ),
        ),
        "required"@,
        text_array_v(seq!["file_path"@, "content"@]),
    )
}

/// The number of bytes that a text takes, up to the largest number.
pub open spec fn size_of_text(s: Seq<char>) -> int {
    byte_len(byte_prefix(s, usize::MAX as int))
}

impl WriteFileTool {
    /// The directory under which relative paths are looked up.
    pub closed spec fn dir(&self) -> Seq<char> {
        self.working_dir@
    }

    pub fn new() -> (r: WriteFileTool)
        ensures
            r.dir() == "."@,
    {
        WriteFileTool { working_dir: owned(".") }
    }

    pub fn with_working_dir(working_dir: String) -> (r: WriteFileTool)
        ensures
            r.dir() == working_dir@,
    {
        WriteFileTool { working_dir }
    }

    /// The file to write: its path first, then its content, which must not be too large.
    pub fn plan(&self, args: &Json, cwd: Result<&str, &str>) -> (r: Result<WritePlan, String>)
        ensures
            match named_path(args@, "file_path"@, self.dir(), cwd_view(cwd)) {
                Err(e) => r matches Err(x) && x@ == e,
                Ok(p) => match args@.str_at("content"@) {
                    None => r matches Err(x) && x@ == "Write failed: missing 'content' parameter"@,
                    Some(c) => if size_of_text(c) > MAX_WRITE_SIZE {
                        r matches Err(x) && x@ == "Write failed: content size "@ + dec(
                            size_of_text(c),
                        ) + " bytes exceeds max of "@ + dec(MAX_WRITE_SIZE as int) + " bytes"@
                    } else {
                        r matches Ok(w) && w.path@ == p && w.content@ == c
                    },
                },
            },
    {
        let path = match resolve_path(args, "file_path", self.working_dir.as_str(), cwd) {
            Ok(p) => p,
            Err(e) => return Err(e),
        };
        let content = match args.str_at("content") {
            Some(c) => c,
            None => return Err(owned("Write failed: missing 'content' parameter")),
        };
        let size: usize = byte_count(content);
        if size > MAX_WRITE_SIZE {
            let mut e = concat("Write failed: content size ", dec_text(size as u64).as_str());
            e.append(" bytes exceeds max of ");
            e.append(dec_text(MAX_WRITE_SIZE as u64).as_str());
            e.append(" bytes");
            return Err(e);
        }
        Ok(WritePlan { path, content: owned(content) })
    }

    /// Whether the file can be written.
    pub fn check(&self, path: &str, kind: PathKind) -> (r: Result<(), String>)
        ensures
            kind == PathKind::Directory ==> (r matches Err(e) && e@
                == "Write failed: path is a directory: "@ + path@),
            kind != PathKind::Directory ==> r is Ok,
    {
        match kind {
            PathKind::Directory => Err(concat("Write failed: path is a directory: ", path)),
            _ => Ok(()),
        }
    }

    /// What is answered once the file is written.
    pub fn done(&self, plan: &WritePlan) -> (r: String)
        ensures
            r@ == "Successfully wrote "@ + dec(size_of_text(plan.content@)) + " bytes to "@
                + plan.path@,
    {
        let mut m = concat(
            "Successfully wrote ",
            dec_text(byte_count(plan.content.as_str()) as u64).as_str(),
        );
        m.append(" bytes to ");
        m.append(plan.path.as_str());
        m
    }
}

impl Tool for WriteFileTool {
    fn name(&self) -> (r: &str)
        ensures
            r@ == "write_file"@,
    {
        "write_file"
    }

    fn description(&self) -> (r: &str)
        ensures
            r@ == "Write content to a file. Creates parent directories automatically. Overwrites existing file content. Maximum content size: 10 MiB."@,
    {
        "Write content to a file. Creates parent directories automatically. Overwrites existing file content. Maximum content size: 10 MiB."
    }

    fn parameters(&self) -> (r: Json)
        ensures
            r@ == write_parameters(),
    {
        schema(
            obj2(
                "file_path",
                param(
                    "string",
                    "The path to the file to write. Parent directories are created automatically.",
                ),
                "content",
                param(
                    "string",
                    "The content to write to the file. Overwrites any existing content.",
                ),
            ),
            text_array2("file_path", "content"),
        )
    }
}

/// Edits files.
#[derive(Debug)]
pub struct EditFileTool {
    working_dir: String,
}

/// An edit: a text to find and what to put in its place.
#[derive(Debug)]
pub struct EditPlan {
    pub path: String,
    pub old_content: String,
    pub new_content: String,
}

/// A file after an edit, and what is answered.
#[derive(Debug)]
pub struct EditOutcome {
    pub content: String,
    pub message: String,
}

pub open spec fn edit_parameters() -> JsonV {
    obj3_v(
        "type"@,
        JsonV::Str("object"@),
        "properties"@,
        obj3_v(
            "file_path"@,
            param_v("string"@, "Path to the file to edit."@),
            "old_content"@,
            param_v("string"@, "The existing content to find in the file."@),
            "new_content"@,
            param_v("string"@, "The replacement content."@),
        ),
        "required"@,
        text_array_v(seq!["file_path"@, "old_content"@, "new_content"@]),
    )
}

impl EditFileTool {
    /// The directory under which relative paths are looked up.
    pub closed spec fn dir(&self) -> Seq<char> {
        self.working_dir@
    }

    pub fn new() -> (r: EditFileTool)
        ensures
            r.dir() == "."@,
    {
        EditFileTool { working_dir: owned(".") }
    }

    pub fn with_working_dir(working_dir: String) -> (r: EditFileTool)
        ensures
            r.dir() == working_dir@,
    {
        EditFileTool { working_dir }
    }

    /// The edit that the arguments ask for. The text to find must not be empty, and the edit
    /// must change something.
    pub fn plan(&self, args: &Json, cwd: Result<&str, &str>) -> (r: Result<EditPlan, String>)
        ensures
            match named_path(args@, "file_path"@, self.dir(), cwd_view(cwd)) {
                Err(e) => r matches Err(x) && x@ == e,
                Ok(p) => match (args@.str_at("old_content"@), args@.str_at("new_content"@)) {
                    (None, _) => r matches Err(x) && x@
                        == "Edit failed: missing 'old_content' parameter"@,
                    (Some(_), None) => r matches Err(x) && x@
                        == "Edit failed: missing 'new_content' parameter"@,
                    (Some(o), Some(n)) => if o.len() == 0 {
                        r matches Err(x) && x@ == "Edit failed: old_content must not be empty"@
                    } else if o == n {
                        r matches Err(x) && x@
                            == "Edit failed: old_content must differ from new_content"@
                    } else {
                        r matches Ok(w) && w.path@ == p && w.old_content@ == o && w.new_content@ == n
                    },
                },
            },
    {
        let path = match resolve_path(args, "file_path", self.working_dir.as_str(), cwd) {
            Ok(p) => p,
            Err(e) => return Err(e),
        };
        let old_content = match args.str_at("old_content") {
            Some(c) => c,
            None => return Err(owned("Edit failed: missing 'old_content' parameter")),
        };
        let new_content = match args.str_at("new_content") {
            Some(c) => c,
            None => return Err(owned("Edit failed: missing 'new_content' parameter")),
        };
        if to_chars(old_content).len() == 0 {
            return Err(owned("Edit failed: old_content must not be empty"));
        }
        if same(old_content, new_content) {
            return Err(owned("Edit failed: old_content must differ from new_content"));
        }
        Ok(
            EditPlan {
                path,
                old_content: owned(old_content),
                new_content: owned(new_content),
            },
        )
    }

    /// Whether the file can be edited.
    pub fn check(&self, path: &str, kind: PathKind) -> (r: Result<(), String>)
        ensures
            match kind {
                PathKind::Missing => r matches Err(e) && e@ == "Edit failed: file not found: "@
                    + path@,
                PathKind::Directory => r matches Err(e) && e@
                    == "Edit failed: path is a directory: "@ + path@,
                PathKind::File => r is Ok,
            },
    {
        match kind {
            PathKind::Missing => Err(concat("Edit failed: file not found: ", path)),
            PathKind::Directory => Err(concat("Edit failed: path is a directory: ", path)),
            PathKind::File => Ok(()),
        }
    }

    /// The file after the edit: every occurrence of the text to find is replaced. It must
    /// occur.
    pub fn apply(&self, plan: &EditPlan, content: &str) -> (r: Result<EditOutcome, String>)
        requires
            plan.old_content@.len() > 0,
        ensures
            if contains(content@, plan.old_content@) {
                r matches Ok(o) && o.content@ == replaced_from(
                    content@,
                    plan.old_content@,
                    plan.new_content@,
                    0,
                ) && o.message@ == "Successfully edited "@ + plan.path@ + " ("@ + dec(
                    occurrences(content@, plan.old_content@, 0),
                ) + " replacement(s))"@
            } else {
                r matches Err(e) && e@ == "Edit failed: old_content not found in "@ + plan.path@
                    + ". Re-read the file to get the current content."@
            },
    {
        if !contains_str(content, plan.old_content.as_str()) {
            let mut e = concat("Edit failed: old_content not found in ", plan.path.as_str());
            e.append(". Re-read the file to get the current content.");
            return Err(e);
        }
        let (edited, count) = replace_all(
            content,
            plan.old_content.as_str(),
            plan.new_content.as_str(),
        );
        let mut message = concat("Successfully edited ", plan.path.as_str());
        message.append(" (");
        message.append(dec_text(count as u64).as_str());
        message.append(" replacement(s))");
        Ok(EditOutcome { content: edited, message })
    }
}

impl Tool for EditFileTool {
    fn name(&self) -> (r: &str)
        ensures
            r@ == "edit_file"@,
    {
        "edit_file"
    }

    fn description(&self) -> (r: &str)
        ensures
            r@ == "Edit a file by finding old_content and replacing it with new_content. Replaces all occurrences. old_content must not be empty and must differ from new_content."@,
    {
        "Edit a file by finding old_content and replacing it with new_content. Replaces all occurrences. old_content must not be empty and must differ from new_content."
    }

    fn parameters(&self) -> (r: Json)
        ensures
            r@ == edit_parameters(),
    {
        schema(
            obj3(
                "file_path",
                param("string", "Path to the file to edit."),
                "old_content",
                param("string", "The existing content to find in the file."),
                "new_content",
                param("string", "The replacement content."),
            ),
            text_array3("file_path", "old_content", "new_content"),
        )
    }
}

} // verus!
