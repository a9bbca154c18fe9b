//! The tools that the model's own side can run, by name.

use crate::schema::ToolDefinition;
use crate::text::{owned, same};
use vstd::prelude::*;

verus! {

/// The tools, each under its name.
#[derive(Debug)]
pub struct ToolRuntime {
    tools: Vec<ToolDefinition>,
}

impl View for ToolRuntime {
    type V = Seq<ToolDefinition>;

    closed spec fn view(&self) -> Seq<ToolDefinition> {
        self.tools@
    }
}

/// The position, from `i` on, of the tool with the name.
pub open spec fn tool_from(s: Seq<ToolDefinition>, name: Seq<char>, i: int) -> Option<int>
    decreases s.len() - i,
{
    if i < 0 || i >= s.len() {
        None
    } else if s[i].name@ == name {
        Some(i)
    } else {
        tool_from(s, name, i + 1)
    }
}

/// Whether no two tools share a name.
pub open spec fn names_differ(s: Seq<ToolDefinition>) -> bool {
    forall|i: int, j: int|
        0 <= i < j < s.len() ==> (#[trigger] s[i]).name@ != (#[trigger] s[j]).name@
}

/// The tools with one more; it takes the place of one with the same name.
pub open spec fn registered(s: Seq<ToolDefinition>, t: ToolDefinition) -> Seq<ToolDefinition> {
    match tool_from(s, t.name@, 0) {
        Some(i) => s.update(i, t),
        None => s.push(t),
    }
}

proof fn lemma_tool_from(s: Seq<ToolDefinition>, name: Seq<char>, i: int)
    requires
        0 <= i,
    ensures
        tool_from(s, name, i) matches Some(p) ==> i <= p < s.len() && s[p].name@ == name,
        tool_from(s, name, i) is None ==> forall|q: int|
            i <= q < s.len() ==> (#[trigger] s[q]).name@ != name,
    decreases s.len() - i,
{
    if i < s.len() && s[i].name@ != name {
        lemma_tool_from(s, name, i + 1);
    }
}

impl ToolRuntime {
    #[verifier::type_invariant]
    spec fn distinct(self) -> bool {
        names_differ(self.tools@)
    }

    pub fn new() -> (r: ToolRuntime)
        ensures
            r@ == Seq::<ToolDefinition>::empty(),
    {
        ToolRuntime { tools: Vec::new() }
    }

    fn slot(&self, name: &str) -> (r: Option<usize>)
        ensures
            match r {
                Some(i) => tool_from(self@, name@, 0) == Some(i as int) && i < self@.len(),
                None => tool_from(self@, name@, 0) is None,
            },
    {
        let mut i: usize = 0;
        while i < self.tools.len()
            invariant
                i <= self.tools@.len(),
                self@ == self.tools@,
                tool_from(self@, name@, 0) == tool_from(self@, name@, i as int),
            decreases self.tools.len() - i,
        {
            if same(self.tools[i].name.as_str(), name) {
                return Some(i);
            }
            i = i + 1;
        }
        None
    }

    /// Adds a tool, or replaces the one with its name. Returns the tool's place.
    pub fn register(&mut self, tool: ToolDefinition) -> (r: usize)
        ensures
            final(self)@ == registered(old(self)@, tool),
            tool_from(final(self)@, tool.name@, 0) == Some(r as int),
            r < final(self)@.len(),
    {
        proof {
            use_type_invariant(&*self);
            lemma_tool_from(self@, tool.name@, 0);
        }
        let ghost before = self@;
        let at = self.slot(tool.name.as_str());
        let mut tools: Vec<ToolDefinition> = Vec::new();
        std::mem::swap(&mut tools, &mut self.tools);
        let i: usize = match at {
            Some(i) => {
                tools.set(i, tool);
                i
            },
            None => {
                let n: usize = tools.len();
                tools.push(tool);
                n
            },
        };
        proof {
            assert(tools@ =~= registered(before, tool));
            lemma_tool_from(tools@, tool.name@, 0);
            assert(tools@[i as int].name@ == tool.name@);
        }
        self.tools = tools;
        i
    }

    /// The place of the tool with the name.
    pub fn find(&self, name: &str) -> (r: Result<usize, String>)
        ensures
            match r {
                Ok(i) => tool_from(self@, name@, 0) == Some(i as int) && i < self@.len(),
                Err(e) => tool_from(self@, name@, 0) is None && e@ == "Tool '"@ + name@
                    + "' not found"@,
            },
    {
        match self.slot(name) {
            Some(i) => Ok(i),
            None => {
                let mut e = owned("Tool '");
                e.append(name);
                e.append("' not found");
                Err(e)
            },
        }
    }

    /// The tools.
    pub fn tool_definitions(&self) -> (r: &Vec<ToolDefinition>)
        ensures
            r@ == self@,
            names_differ(r@),
    {
        proof {
            use_type_invariant(self);
        }
        &self.tools
    }
}

impl Default for ToolRuntime {
    fn default() -> (r: ToolRuntime)
        ensures
            r@ == Seq::<ToolDefinition>::empty(),
    {
        ToolRuntime::new()
    }
}

} // verus!
