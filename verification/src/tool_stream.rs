//! Puts the tool calls of a turn together from the pieces in which they stream in.

use crate::json::{jsons, obj2, obj2_v, obj3, obj3_v, Json, JsonV};
use vstd::prelude::*;

verus! {

/// One tool call in the making.
#[derive(Debug)]
pub struct ToolAccumulator {
    pub id: String,
    pub name: String,
    pub input: String,
}

/// The model of a [`ToolAccumulator`].
pub struct AccumulatorV {
    pub id: Seq<char>,
    pub name: Seq<char>,
    pub input: Seq<char>,
}

impl View for ToolAccumulator {
    type V = AccumulatorV;

    open spec fn view(&self) -> AccumulatorV {
        AccumulatorV { id: self.id@, name: self.name@, input: self.input@ }
    }
}

impl AccumulatorV {
    pub open spec fn empty() -> AccumulatorV {
        AccumulatorV { id: Seq::empty(), name: Seq::empty(), input: Seq::empty() }
    }

    pub open spec fn plus(self, id: Seq<char>, name: Seq<char>, input: Seq<char>) -> AccumulatorV {
        AccumulatorV { id: self.id + id, name: self.name + name, input: self.input + input }
    }

    /// The tool call.
    pub open spec fn call(self) -> JsonV {
        obj3_v(
            "id"@,
            JsonV::Str(self.id),
            "type"@,
            JsonV::Str("function"@),
            "function"@,
            obj2_v("name"@, JsonV::Str(self.name), "arguments"@, JsonV::Str(self.input)),
        )
    }
}

impl ToolAccumulator {
    pub fn new() -> (r: ToolAccumulator)
        ensures
            r@ == AccumulatorV::empty(),
    {
        let r = ToolAccumulator { id: String::new(), name: String::new(), input: String::new() };
        assert(r.id@ =~= Seq::empty());
        assert(r.name@ =~= Seq::empty());
        assert(r.input@ =~= Seq::empty());
        r
    }

    pub fn push_name(&mut self, name: &str)
        ensures
            final(self)@ == (AccumulatorV { name: old(self)@.name + name@, ..old(self)@ }),
    {
        self.name.append(name);
    }

    pub fn push_input(&mut self, input: &str)
        ensures
            final(self)@ == (AccumulatorV { input: old(self)@.input + input@, ..old(self)@ }),
    {
        self.input.append(input);
    }

    pub fn push_id(&mut self, id: &str)
        ensures
            final(self)@ == (AccumulatorV { id: old(self)@.id + id@, ..old(self)@ }),
    {
        self.id.append(id);
    }

    /// The tool call.
    pub fn to_call(&self) -> (r: Json)
        ensures
            r@ == self@.call(),
    {
        obj3(
            "id",
            Json::Str(self.id.clone()),
            "type",
            Json::text("function"),
            "function",
            obj2(
                "name",
                Json::Str(self.name.clone()),
                "arguments",
                Json::Str(self.input.clone()),
            ),
        )
    }
}

/// The tool calls of a turn, by their index, in the order in which they began.
#[derive(Debug)]
pub struct ToolStream {
    pub tools: Vec<(usize, ToolAccumulator)>,
}

impl View for ToolStream {
    type V = Seq<(usize, AccumulatorV)>;

    open spec fn view(&self) -> Seq<(usize, AccumulatorV)> {
        self.tools@.map_values(|e: (usize, ToolAccumulator)| (e.0, e.1@))
    }
}

/// The position, from `i` on, of the call with the index.
pub open spec fn slot_from(s: Seq<(usize, AccumulatorV)>, index: usize, i: int) -> Option<int>
    decreases s.len() - i,
{
    if i < 0 || i >= s.len() {
        None
    } else if s[i].0 == index {
        Some(i)
    } else {
        slot_from(s, index, i + 1)
    }
}

/// The calls with one more piece: added to the call with the index, or a new one.
pub open spec fn appended(
    s: Seq<(usize, AccumulatorV)>,
    index: usize,
    id: Seq<char>,
    name: Seq<char>,
    input: Seq<char>,
) -> Seq<(usize, AccumulatorV)> {
    match slot_from(s, index, 0) {
        Some(i) => s.update(i, (index, s[i].1.plus(id, name, input))),
        None => s.push((index, AccumulatorV::empty().plus(id, name, input))),
    }
}

/// What has come in for the call with the index.
pub open spec fn call_at(s: Seq<(usize, AccumulatorV)>, index: usize) -> AccumulatorV {
    match slot_from(s, index, 0) {
        Some(i) => s[i].1,
        None => AccumulatorV::empty(),
    }
}

/// The tool calls.
pub open spec fn calls(s: Seq<(usize, AccumulatorV)>) -> Seq<JsonV> {
    s.map_values(|e: (usize, AccumulatorV)| e.1.call())
}

/// A found slot is the first with the index.
pub proof fn lemma_slot(s: Seq<(usize, AccumulatorV)>, index: usize, i: int)
    requires
        0 <= i,
    ensures
        slot_from(s, index, i) matches Some(p) ==> i <= p < s.len() && s[p].0 == index && forall|q: int|
            i <= q < p ==> (#[trigger] s[q]).0 != index,
        slot_from(s, index, i) is None ==> forall|q: int|
            i <= q < s.len() ==> (#[trigger] s[q]).0 != index,
    decreases s.len() - i,
{
    if i < s.len() && s[i].0 != index {
        lemma_slot(s, index, i + 1);
    }
}

proof fn lemma_slot_is(s: Seq<(usize, AccumulatorV)>, index: usize, i: int, p: int)
    requires
        0 <= i <= p < s.len(),
        s[p].0 == index,
        forall|q: int| i <= q < p ==> (#[trigger] s[q]).0 != index,
    ensures
        slot_from(s, index, i) == Some(p),
    decreases p - i,
{
    if i < p {
        lemma_slot_is(s, index, i + 1, p);
    }
}

impl ToolStream {
    pub fn new() -> (r: ToolStream)
        ensures
            r@ == Seq::<(usize, AccumulatorV)>::empty(),
            indices_once(r@),
    {
        let r = ToolStream { tools: Vec::new() };
        assert(r@ =~= Seq::empty());
        r
    }

    fn slot(&self, index: usize) -> (r: Option<usize>)
        ensures
            match r {
                Some(i) => i < self.tools@.len() && slot_from(self@, index, 0) == Some(i as int),
                None => slot_from(self@, index, 0) is None,
            },
    {
        let mut i: usize = 0;
        while i < self.tools.len()
            invariant
                i <= self.tools@.len(),
                self@.len() == self.tools@.len(),
                slot_from(self@, index, 0) == slot_from(self@, index, i as int),
            decreases self.tools.len() - i,
        {
            if self.tools[i].0 == index {
                return Some(i);
            }
            i = i + 1;
        }
        None
    }

    /// Takes in a piece of the call with the index.
    pub fn append_or_start(&mut self, index: usize, id: &str, name: &str, input: &str)
        ensures
            final(self)@ == appended(old(self)@, index, id@, name@, input@),
            indices_once(old(self)@) ==> indices_once(final(self)@),
    {
        let ghost before = self@;
        proof {
            lemma_slot(before, index, 0);
        }
        match self.slot(index) {
            Some(i) => {
                let mut entry = ToolAccumulator {
                    id: self.tools[i].1.id.clone(),
                    name: self.tools[i].1.name.clone(),
                    input: self.tools[i].1.input.clone(),
                };
                entry.push_id(id);
                entry.push_name(name);
                entry.push_input(input);
                self.tools.set(i, (index, entry));
                assert(self@ =~= appended(before, index, id@, name@, input@));
            },
            None => {
                let mut entry = ToolAccumulator::new();
                entry.push_id(id);
                entry.push_name(name);
                entry.push_input(input);
                self.tools.push((index, entry));
                assert(self@ =~= appended(before, index, id@, name@, input@));
            },
        }
    }

    /// The tool calls, in the order in which they began.
    pub fn finish_all(&self) -> (r: Vec<Json>)
        ensures
            jsons(r@) == calls(self@),
    {
        let mut out: Vec<Json> = Vec::new();
        let mut i: usize = 0;
        while i < self.tools.len()
            invariant
                i <= self.tools@.len(),
                out@.len() == i,
                forall|j: int| 0 <= j < i ==> (#[trigger] out@[j])@ == self@[j].1.call(),
            decreases self.tools.len() - i,
        {
            out.push(self.tools[i].1.to_call());
            i = i + 1;
        }
        assert(jsons(out@) =~= calls(self@));
        out
    }

    /// The tool call with the index.
    pub fn finish_one(&self, index: usize) -> (r: Option<Json>)
        ensures
            match r {
                Some(j) => slot_from(self@, index, 0) is Some && j@ == call_at(self@, index).call(),
                None => slot_from(self@, index, 0) is None,
            },
    {
        match self.slot(index) {
            Some(i) => Some(self.tools[i].1.to_call()),
            None => None,
        }
    }

    /// What has come in of the arguments of the call with the index.
    pub fn input_so_far(&self, index: usize) -> (r: String)
        ensures
            r@ == call_at(self@, index).input,
    {
        match self.slot(index) {
            Some(i) => self.tools[i].1.input.clone(),
            None => {
                let s = String::new();
                assert(s@ =~= Seq::empty());
                s
            },
        }
    }
}

/// A piece goes to the call with its index and to no other.
pub proof fn lemma_pieces_do_not_mix(
    s: Seq<(usize, AccumulatorV)>,
    index: usize,
    id: Seq<char>,
    name: Seq<char>,
    input: Seq<char>,
    other: usize,
)
    requires
        other != index,
    ensures
        call_at(appended(s, index, id, name, input), index) == call_at(s, index).plus(
            id,
            name,
            input,
        ),
        call_at(appended(s, index, id, name, input), other) == call_at(s, other),
{
    let t = appended(s, index, id, name, input);
    lemma_slot(s, index, 0);
    lemma_slot(s, other, 0);
    match slot_from(s, index, 0) {
        Some(i) => lemma_slot_is(t, index, 0, i),
        None => lemma_slot_is(t, index, 0, s.len() as int),
    }
    match slot_from(s, other, 0) {
        Some(i) => lemma_slot_is(t, other, 0, i),
        None => lemma_slot(t, other, 0),
    }
}

/// Whether no index occurs twice.
pub open spec fn indices_once(s: Seq<(usize, AccumulatorV)>) -> bool {
    forall|i: int, j: int| 0 <= i < j < s.len() ==> (#[trigger] s[i]).0 != (#[trigger] s[j]).0
}

/// There is one call for each index, and a piece keeps it so.
pub proof fn lemma_one_call_for_each_index(
    s: Seq<(usize, AccumulatorV)>,
    index: usize,
    id: Seq<char>,
    name: Seq<char>,
    input: Seq<char>,
)
    requires
        indices_once(s),
    ensures
        indices_once(Seq::<(usize, AccumulatorV)>::empty()),
        indices_once(appended(s, index, id, name, input)),
{
    lemma_slot(s, index, 0);
}

} // verus!
