//! The handoff summary of a conversation that has used up its iterations.

use crate::five_whys::{truncate_text, truncated};
use crate::json::{jsons, Json, JsonV};
use crate::state::{ConversationState, StateV};
use crate::text::{dec, dec_text, owned, same, texts};
use vstd::prelude::*;

verus! {

/// The line of a message in a summary, where it is the user's or the assistant's.
pub open spec fn summary_line(m: JsonV) -> Option<Seq<char>> {
    let role = m.str_or("role"@, "?"@);
    if role == "user"@ || role == "assistant"@ {
        Some(role + ": "@ + m.str_or("content"@, "(non-text content)"@))
    } else {
        None
    }
}

/// The lines of the first `n` messages.
pub open spec fn summary_lines(ms: Seq<JsonV>, n: int) -> Seq<Seq<char>>
    decreases n,
{
    if n <= 0 {
        Seq::empty()
    } else {
        match summary_line(ms[n - 1]) {
            Some(l) => summary_lines(ms, n - 1).push(l),
            None => summary_lines(ms, n - 1),
        }
    }
}

/// The lines from `from` to `to`, each truncated and followed by a rule.
pub open spec fn ruled(lines: Seq<Seq<char>>, from: int, to: int) -> Seq<char>
    decreases to - from,
{
    if to <= from {
        Seq::empty()
    } else {
        ruled(lines, from, to - 1) + truncated(lines[to - 1], 2000) + "\n\n---\n\n"@
    }
}

impl StateV {
    /// The handoff summary with the last `n` messages of user and assistant.
    pub open spec fn summary(self, n: int) -> Seq<char> {
        let lines = summary_lines(self.messages, self.messages.len() as int);
        let from = if lines.len() > n {
            lines.len() - n
        } else {
            0
        };
        "# Max-iterations handoff\n\nLast "@ + dec(lines.len() - from) + " of "@ + dec(
            lines.len() as int,
        ) + " user/assistant messages:\n\n"@ + ruled(lines, from, lines.len() as int)
            + "\niteration_count: "@ + dec(self.iteration_count as int) + " (max)\n"@
    }
}

fn line_of(m: &Json) -> (r: Option<String>)
    ensures
        match r {
            Some(l) => summary_line(m@) == Some(l@),
            None => summary_line(m@) is None,
        },
{
    let role = m.str_or("role", "?");
    if same(role, "user") || same(role, "assistant") {
        let mut l = owned(role);
        l.append(": ");
        l.append(m.str_or("content", "(non-text content)"));
        Some(l)
    } else {
        None
    }
}

impl ConversationState {
    /// A readable summary of the last `n` messages of user and assistant, for a handoff.
    pub fn recent_messages_summary(&self, n: usize) -> (r: String)
        ensures
            r@ == self@.summary(n as int),
    {
        let mut lines: Vec<String> = Vec::new();
        let ghost ms = self@.messages;
        assert(texts(lines@) =~= Seq::empty());
        for i in 0..self.messages.len()
            invariant
                ms == jsons(self.messages@),
                texts(lines@) == summary_lines(ms, i as int),
        {
            assert(ms[i as int] == self.messages@[i as int]@);
            if let Some(l) = line_of(&self.messages[i]) {
                let ghost before = lines@;
                lines.push(l);
                assert(texts(lines@) =~= texts(before).push(l@));
            }
        }
        let from: usize = if lines.len() > n {
            lines.len() - n
        } else {
            0
        };
        let ghost all = texts(lines@);
        let mut body = String::new();
        let mut k: usize = from;
        while k < lines.len()
            invariant
                from <= k <= lines@.len(),
                all == texts(lines@),
                body@ == ruled(all, from as int, k as int),
            decreases lines.len() - k,
        {
            assert(all[k as int] == lines@[k as int]@);
            body.append(truncate_text(lines[k].as_str(), 2000).as_str());
            body.append("\n\n---\n\n");
            k = k + 1;
        }
        let mut out = owned("# Max-iterations handoff\n\nLast ");
        out.append(dec_text((lines.len() - from) as u64).as_str());
        out.append(" of ");
        out.append(dec_text(lines.len() as u64).as_str());
        out.append(" user/assistant messages:\n\n");
        out.append(body.as_str());
        out.append("\niteration_count: ");
        out.append(dec_text(self.iteration_count as u64).as_str());
        out.append(" (max)\n");
        out
    }
}

} // verus!
