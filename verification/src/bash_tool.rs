//! The tool that runs shell commands: which it runs, for how long, and what it answers.

use crate::file_tools::{concat, PathKind};
use crate::framing::{from_utf8_lossy, utf8_lossy};
use crate::internal_tools::{param, param_v, schema};
use crate::json::{obj3, obj3_v, text_array1, text_array_v, Json, JsonV};
use crate::text::{contains, contains_str, dec, dec_text, owned, signed_dec, signed_text, to_chars};
use crate::text::{trim, trim_str};
use crate::tool::Tool;
use vstd::prelude::*;

verus! {

/// The timeout where none is given, in milliseconds.
pub const DEFAULT_TIMEOUT_MS: u64 = 120_000;

/// The longest timeout, in milliseconds.
pub const MAX_TIMEOUT_MS: u64 = 600_000;

/// What no command may contain.
pub open spec fn dangerous_patterns() -> Seq<Seq<char>> {
    seq![
        "rm -rf /"@,
        "sudo rm"@,
        ":(){ :|:& };:"@,
        "chmod -R 777 /"@,
        "dd if="@,
    ]
}

/// The first of the patterns, from `i` on, that the command contains.
pub open spec fn danger_from(command: Seq<char>, i: int) -> Option<Seq<char>>
    decreases dangerous_patterns().len() - i,
{
    if i < 0 || i >= dangerous_patterns().len() {
        None
    } else if contains(command, dangerous_patterns()[i]) {
        Some(dangerous_patterns()[i])
    } else {
        danger_from(command, i + 1)
    }
}

/// The first of the patterns that the command contains.
fn find_danger(command: &str) -> (r: Option<&'static str>)
    ensures
        crate::text::opt_str(r) == danger_from(command@, 0),
{
    reveal_with_fuel(danger_from, 6);
    if contains_str(command, "rm -rf /") {
        return Some("rm -rf /");
    }
    if contains_str(command, "sudo rm") {
        return Some("sudo rm");
    }
    if contains_str(command, ":(){ :|:& };:") {
        return Some(":(){ :|:& };:");
    }
    if contains_str(command, "chmod -R 777 /") {
        return Some("chmod -R 777 /");
    }
    if contains_str(command, "dd if=") {
        return Some("dd if=");
    }
    None
}

/// Runs shell commands.
#[derive(Debug)]
pub struct BashTool {
    working_dir: String,
}

/// A command to run.
#[derive(Debug)]
pub struct BashPlan {
    pub command: String,
    pub timeout_ms: u64,
    pub work_dir: String,
}

pub open spec fn bash_parameters() -> JsonV {
    obj3_v(
        "type"@,
        JsonV::Str("object"@),
        "properties"@,
        obj3_v(
            "command"@,
            param_v("string"@, "The shell command to execute. Runs via bash -c."@),
            "timeout"@,
            param_v(
                "integer"@,
                "Optional timeout in milliseconds. Default: 120000, max: 600000."@,
            ),
            "working_dir"@,
            param_v("string"@, "Optional working directory for command execution."@),
        ),
        "required"@,
        text_array_v(seq!["command"@]),
    )
}

/// The timeout that the arguments ask for.
pub open spec fn asked_timeout(args: JsonV) -> u64 {
    match args.at("timeout"@).as_u64() {
        Some(n) => n,
        None => DEFAULT_TIMEOUT_MS,
    }
}

/// Why the arguments are refused, where they are: no command, an empty or a dangerous one, or
/// a timeout out of bounds, in this order.
pub open spec fn refused(args: JsonV) -> Option<Seq<char>> {
    match args.str_at("command"@) {
        None => Some("Execution failed: missing 'command' parameter"@),
        Some(c) => if trim(c).len() == 0 {
            Some("Execution failed: empty command"@)
        } else {
            match danger_from(c, 0) {
                Some(p) => Some(
                    "Security check failed: Command blocked: contains dangerous pattern '"@ + p
                        + "'"@,
                ),
                None => if asked_timeout(args) == 0 {
                    Some("Invalid timeout: timeout must be > 0"@)
                } else if asked_timeout(args) > MAX_TIMEOUT_MS {
                    Some(
                        "Invalid timeout: timeout must be <= "@ + dec(MAX_TIMEOUT_MS as int)
                            + " ms"@,
                    )
                } else {
                    None
                },
            }
        },
    }
}

/// What a command that ran is answered with.
pub open spec fn command_report(
    command: Seq<char>,
    exit_code: int,
    stdout: Seq<char>,
    stderr: Seq<char>,
) -> Seq<char> {
    "Command: "@ + command + "\nExit code: "@ + signed_dec(exit_code) + "\nSTDOUT:\n"@ + stdout
        + if stderr.len() == 0 {
        Seq::empty()
    } else {
        "\nSTDERR:\n"@ + stderr
    }
}

impl BashTool {
    /// The directory in which commands run that name none.
    pub closed spec fn dir(&self) -> Seq<char> {
        self.working_dir@
    }

    pub fn new() -> (r: BashTool)
        ensures
            r.dir() == "."@,
    {
        BashTool { working_dir: owned(".") }
    }

    pub fn with_working_dir(working_dir: String) -> (r: BashTool)
        ensures
            r.dir() == working_dir@,
    {
        BashTool { working_dir }
    }

    /// The command that the arguments ask for, unless they are refused.
    pub fn plan(&self, args: &Json) -> (r: Result<BashPlan, String>)
        ensures
            match r {
                Ok(p) => refused(args@) is None && Some(p.command@) == args@.str_at("command"@)
                    && p.timeout_ms == asked_timeout(args@) && p.work_dir@ == args@.str_or(
                    "working_dir"@,
                    self.dir(),
                ),
                Err(e) => refused(args@) == Some(e@),
            },
    {
        let command = match args.str_at("command") {
            Some(c) => c,
            None => return Err(owned("Execution failed: missing 'command' parameter")),
        };
        let trimmed = trim_str(command);
        if to_chars(trimmed.as_str()).len() == 0 {
            return Err(owned("Execution failed: empty command"));
        }
        if let Some(p) = find_danger(command) {
            let mut e = concat(
                "Security check failed: Command blocked: contains dangerous pattern '",
                p,
            );
            e.append("'");
            return Err(e);
        }
        let timeout_ms: u64 = match args.get("timeout") {
            Some(v) => match v.as_u64() {
                Some(n) => n,
                None => DEFAULT_TIMEOUT_MS,
            },
            None => DEFAULT_TIMEOUT_MS,
        };
        if timeout_ms == 0 {
            return Err(owned("Invalid timeout: timeout must be > 0"));
        }
        if timeout_ms > MAX_TIMEOUT_MS {
            let mut e = concat(
                "Invalid timeout: timeout must be <= ",
                dec_text(MAX_TIMEOUT_MS).as_str(),
            );
            e.append(" ms");
            return Err(e);
        }
        Ok(
            BashPlan {
                command: owned(command),
                timeout_ms,
                work_dir: owned(args.str_or("working_dir", self.working_dir.as_str())),
            },
        )
    }

    /// Whether a command can run in the directory.
    pub fn check(&self, work_dir: &str, kind: PathKind) -> (r: Result<(), String>)
        ensures
            match kind {
                PathKind::Missing => r matches Err(e) && e@
                    == "Execution failed: working directory not found: "@ + work_dir@,
                PathKind::File => r matches Err(e) && e@
                    == "Execution failed: working directory is not a directory: "@ + work_dir@,
                PathKind::Directory => r is Ok,
            },
    {
        match kind {
            PathKind::Missing => Err(
                concat("Execution failed: working directory not found: ", work_dir),
            ),
            PathKind::File => Err(
                concat("Execution failed: working directory is not a directory: ", work_dir),
            ),
            PathKind::Directory => Ok(()),
        }
    }

    /// What a command that took too long is answered with.
    pub fn timed_out(&self, plan: &BashPlan) -> (r: String)
        ensures
            r@ == "Execution failed: Command timed out after "@ + dec(plan.timeout_ms as int)
                + " milliseconds"@,
    {
        let mut e = concat(
            "Execution failed: Command timed out after ",
            dec_text(plan.timeout_ms).as_str(),
        );
        e.append(" milliseconds");
        e
    }

    /// What a command that ran is answered with. A command that a signal ended has no exit
    /// code, and is reported with -1.
    pub fn report(&self, plan: &BashPlan, exit_code: Option<i32>, stdout: &[u8], stderr: &[u8]) -> (r:
        String)
        ensures
            r@ == command_report(
                plan.command@,
                match exit_code {
                    Some(c) => c as int,
                    None => -1,
                },
                utf8_lossy(stdout@),
                utf8_lossy(stderr@),
            ),
    {
        let out = from_utf8_lossy(stdout);
        let err = from_utf8_lossy(stderr);
        let code: i32 = match exit_code {
            Some(c) => c,
            None => -1,
        };
        let mut m = concat("Command: ", plan.command.as_str());
        m.append("\nExit code: ");
        m.append(signed_text(code).as_str());
        m.append("\nSTDOUT:\n");
        m.append(out.as_str());
        if to_chars(err.as_str()).len() > 0 {
            m.append(concat("\nSTDERR:\n", err.as_str()).as_str());
        } else {
            assert(m@ + Seq::<char>::empty() =~= m@);
        }
        m
    }
}

impl Tool for BashTool {
    fn name(&self) -> (r: &str)
        ensures
            r@ == "bash"@,
    {
        "bash"
    }

    fn description(&self) -> (r: &str)
        ensures
            r@ == "Run a shell command via bash -c and return stdout, stderr, and exit code. Supports optional timeout (default 120s, max 10min) and working directory. Dangerous commands are blocked."@,
    {
        "Run a shell command via bash -c and return stdout, stderr, and exit code. Supports optional timeout (default 120s, max 10min) and working directory. Dangerous commands are blocked."
    }

    fn parameters(&self) -> (r: Json)
        ensures
            r@ == bash_parameters(),
    {
        schema(
            obj3(
                "command",
                param("string", "The shell command to execute. Runs via bash -c."),
                "timeout",
                param(
                    "integer",
                    "Optional timeout in milliseconds. Default: 120000, max: 600000.",
                ),
                "working_dir",
                param("string", "Optional working directory for command execution."),
            ),
            text_array1("command"),
        )
    }
}

/// No command runs that contains one of the dangerous patterns, whatever else the arguments
/// say.
pub proof fn lemma_dangerous_commands_are_blocked(args: JsonV, i: int)
    requires
        0 <= i < dangerous_patterns().len(),
        args.str_at("command"@) matches Some(c) && contains(c, dangerous_patterns()[i]),
    ensures
        refused(args) is Some,
{
    let c = args.str_at("command"@).unwrap();
    lemma_danger_found(c, 0, i);
}

proof fn lemma_danger_found(c: Seq<char>, j: int, i: int)
    requires
        0 <= j <= i < dangerous_patterns().len(),
        contains(c, dangerous_patterns()[i]),
    ensures
        danger_from(c, j) is Some,
    decreases i - j,
{
    if j < i && !contains(c, dangerous_patterns()[j]) {
        lemma_danger_found(c, j + 1, i);
    }
}

} // verus!
