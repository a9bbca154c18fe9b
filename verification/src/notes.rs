//! The notes that an agent keeps on disk: things to fix, and conclusions.
//!
//! The lists are read from and written to files by whoever runs the tools; here they are
//! looked up and changed.

use crate::file_tools::concat;
use crate::internal_tools::{param, param_v, schema};
use crate::json::{obj1, obj1_v, obj2, obj2_v, obj3_v, text_array1, text_array2};
use crate::json::{text_array_v, Json, JsonV};
use crate::message::fresh_id;
use crate::text::{ends_with, ends_with_str, owned, same, to_chars, trim, trim_str};
use crate::tool::Tool;
use vstd::prelude::*;

verus! {

/// Whether a file of notes holds nothing, and so counts as an empty list.
pub fn is_blank(content: &str) -> (r: bool)
    ensures
        r == (trim(content@).len() == 0),
{
    to_chars(trim_str(content).as_str()).len() == 0
}

/// A file in a directory.
pub open spec fn file_in(dir: Seq<char>, name: Seq<char>) -> Seq<char> {
    if dir.len() == 0 || ends_with(dir, "/"@) {
        dir + name
    } else {
        dir + "/"@ + name
    }
}

/// The file in the working directory, which may be the current one where that is known.
pub open spec fn note_path(
    working_dir: Seq<char>,
    cwd: Option<Seq<char>>,
    name: Seq<char>,
) -> Seq<char> {
    if working_dir == "."@ {
        match cwd {
            Some(d) => file_in(d, name),
            None => file_in("."@, name),
        }
    } else {
        file_in(working_dir, name)
    }
}

/// The file in the working directory.
pub fn resolve_note_path(working_dir: &str, cwd: Option<&str>, name: &str) -> (r: String)
    ensures
        r@ == note_path(working_dir@, crate::text::opt_str(cwd), name@),
{
    let dir = if same(working_dir, ".") {
        match cwd {
            Some(d) => d,
            None => ".",
        }
    } else {
        working_dir
    };
    if to_chars(dir).len() == 0 || ends_with_str(dir, "/") {
        concat(dir, name)
    } else {
        concat(concat(dir, "/").as_str(), name)
    }
}

/// Something to fix.
#[derive(Debug, PartialEq, Eq)]
pub struct FixmeEntry {
    pub id: String,
    pub phrase: String,
    pub done: bool,
}

/// The model of a [`FixmeEntry`].
pub struct FixmeV {
    pub id: Seq<char>,
    pub phrase: Seq<char>,
    pub done: bool,
}

impl View for FixmeEntry {
    type V = FixmeV;

    open spec fn view(&self) -> FixmeV {
        FixmeV { id: self.id@, phrase: self.phrase@, done: self.done }
    }
}

impl Clone for FixmeEntry {
    fn clone(&self) -> (r: FixmeEntry)
        ensures
            r@ == self@,
    {
        FixmeEntry { id: self.id.clone(), phrase: self.phrase.clone(), done: self.done }
    }
}

/// The models of the entries of `s`.
pub open spec fn fixmes(s: Seq<FixmeEntry>) -> Seq<FixmeV> {
    s.map_values(|f: FixmeEntry| f@)
}

/// The position, from `i` on, of the entry with the id.
pub open spec fn fixme_from(s: Seq<FixmeV>, id: Seq<char>, i: int) -> Option<int>
    decreases s.len() - i,
{
    if i < 0 || i >= s.len() {
        None
    } else if s[i].id == id {
        Some(i)
    } else {
        fixme_from(s, id, i + 1)
    }
}

/// The entries that are not done.
pub open spec fn open_fixmes(s: Seq<FixmeV>) -> Seq<FixmeV> {
    s.filter(|f: FixmeV| !f.done)
}

/// The list of things to fix, and the file that it is kept in.
#[derive(Debug)]
pub struct FixmeStore {
    path: String,
    entries: Vec<FixmeEntry>,
}

impl View for FixmeStore {
    type V = Seq<FixmeV>;

    closed spec fn view(&self) -> Seq<FixmeV> {
        fixmes(self.entries@)
    }
}

impl FixmeStore {
    /// The file that the list is kept in.
    pub closed spec fn file(&self) -> Seq<char> {
        self.path@
    }

    /// An empty list that is kept in the working directory.
    pub fn new(working_dir: &str, cwd: Option<&str>) -> (r: FixmeStore)
        ensures
            r.file() == note_path(working_dir@, crate::text::opt_str(cwd), "fixme.json"@),
            r@ == Seq::<FixmeV>::empty(),
    {
        let r = FixmeStore {
            path: resolve_note_path(working_dir, cwd, "fixme.json"),
            entries: Vec::new(),
        };
        assert(r@ =~= Seq::empty());
        r
    }

    /// The file that the list is kept in.
    pub fn path(&self) -> (r: &str)
        ensures
            r@ == self.file(),
    {
        self.path.as_str()
    }

    /// Takes over what the file held.
    pub fn load(&mut self, entries: Vec<FixmeEntry>)
        ensures
            final(self)@ == fixmes(entries@),
            final(self).file() == old(self).file(),
    {
        self.entries = entries;
    }

    /// Adds an entry under a new id. Returns it.
    pub fn add(&mut self, phrase: &str) -> (r: FixmeEntry)
        ensures
            r.phrase@ == phrase@,
            !r.done,
            r.id@.len() == 36,
            final(self)@ == old(self)@.push(r@),
            final(self).file() == old(self).file(),
    {
        let entry = FixmeEntry { id: fresh_id(), phrase: owned(phrase), done: false };
        let ghost before = self.entries@;
        self.entries.push(entry.clone());
        assert(fixmes(self.entries@) =~= fixmes(before).push(entry@));
        entry
    }

    /// Marks the entry with the id as done or not.
    pub fn mark_done(&mut self, id: &str, done: bool) -> (r: Result<(), String>)
        ensures
            final(self).file() == old(self).file(),
            match fixme_from(old(self)@, id@, 0) {
                Some(i) => r is Ok && final(self)@ == old(self)@.update(
                    i,
                    FixmeV { done, ..old(self)@[i] },
                ),
                None => (r matches Err(e) && e@ == "Fixme with id '"@ + id@ + "' not found"@)
                    && final(self)@ == old(self)@,
            },
    {
        let ghost before = self@;
        let mut i: usize = 0;
        while i < self.entries.len()
            invariant
                i <= self.entries@.len(),
                self@ == before,
                self@ == fixmes(self.entries@),
                self.file() == old(self).file(),
                before == old(self)@,
                fixme_from(before, id@, 0) == fixme_from(before, id@, i as int),
            decreases self.entries.len() - i,
        {
            assert(before[i as int] == self.entries@[i as int]@);
            if same(self.entries[i].id.as_str(), id) {
                let mut entry = self.entries[i].clone();
                entry.done = done;
                self.entries.set(i, entry);
                assert(self@ =~= before.update(i as int, FixmeV { done, ..before[i as int] }));
                return Ok(());
            }
            i = i + 1;
        }
        let mut e = concat("Fixme with id '", id);
        e.append("' not found");
        Err(e)
    }

    /// All entries.
    pub fn get_all(&self) -> (r: Vec<FixmeEntry>)
        ensures
            fixmes(r@) == self@,
    {
        let mut out: Vec<FixmeEntry> = Vec::new();
        let mut i: usize = 0;
        while i < self.entries.len()
            invariant
                i <= self.entries@.len(),
                out@.len() == i,
                forall|j: int| 0 <= j < i ==> (#[trigger] out@[j])@ == self.entries@[j]@,
            decreases self.entries.len() - i,
        {
            out.push(self.entries[i].clone());
            i = i + 1;
        }
        assert(fixmes(out@) =~= self@);
        out
    }

    /// The entries that are not done.
    pub fn get_open(&self) -> (r: Vec<FixmeEntry>)
        ensures
            fixmes(r@) == open_fixmes(self@),
    {
        let mut out: Vec<FixmeEntry> = Vec::new();
        let mut i: usize = 0;
        assert(self@.take(0) =~= Seq::empty());
        assert(fixmes(out@) =~= open_fixmes(self@.take(0))) by {
            reveal(Seq::filter);
        }
        while i < self.entries.len()
            invariant
                i <= self.entries@.len(),
                self@ == fixmes(self.entries@),
                fixmes(out@) == open_fixmes(self@.take(i as int)),
            decreases self.entries.len() - i,
        {
            let ghost before = out@;
            let ghost next = self@.take(i + 1);
            proof {
                assert(next.drop_last() =~= self@.take(i as int));
                assert(next.last() == self.entries@[i as int]@);
                reveal(Seq::filter);
            }
            if !self.entries[i].done {
                out.push(self.entries[i].clone());
                assert(fixmes(out@) =~= fixmes(before).push(self.entries@[i as int]@));
            }
            i = i + 1;
        }
        assert(self@.take(self.entries@.len() as int) =~= self@);
        out
    }
}

/// A tool without parameters.
pub open spec fn no_parameters() -> JsonV {
    obj2_v("type"@, JsonV::Str("object"@), "properties"@, JsonV::Object(Seq::empty()))
}

fn no_parameters_json() -> (r: Json)
    ensures
        r@ == no_parameters(),
{
    obj2("type", Json::text("object"), "properties", Json::object())
}

/// Gets all things to fix.
#[derive(Debug)]
pub struct GetAllFixmesTool {
    pub store: FixmeStore,
}

/// What a list of fixmes is answered with: its JSON text, which the caller wrote, or a word
/// where there are none.
pub fn format_fixmes(list: &[FixmeEntry], written: &str) -> (r: String)
    ensures
        r@ == (if list@.len() == 0 {
            "No fixmes found."@
        } else {
            written@
        }),
{
    if list.len() == 0 {
        owned("No fixmes found.")
    } else {
        owned(written)
    }
}

impl GetAllFixmesTool {
    pub fn with_working_dir(working_dir: &str, cwd: Option<&str>) -> (r: GetAllFixmesTool)
        ensures
            r.store.file() == note_path(working_dir@, crate::text::opt_str(cwd), "fixme.json"@),
            r.store@ == Seq::<FixmeV>::empty(),
    {
        GetAllFixmesTool { store: FixmeStore::new(working_dir, cwd) }
    }
}

impl Tool for GetAllFixmesTool {
    fn name(&self) -> (r: &str)
        ensures
            r@ == "get_all_fixmes"@,
    {
        "get_all_fixmes"
    }

    fn description(&self) -> (r: &str)
        ensures
            r@ == "Get all fixme notes from fixme.json, regardless of done status. Returns a JSON array of all entries."@,
    {
        "Get all fixme notes from fixme.json, regardless of done status. Returns a JSON array of all entries."
    }

    fn parameters(&self) -> (r: Json)
        ensures
            r@ == no_parameters(),
    {
        no_parameters_json()
    }
}

/// Gets the things to fix that are not done.
#[derive(Debug)]
pub struct GetOpenFixmesTool {
    pub store: FixmeStore,
}

impl GetOpenFixmesTool {
    pub fn with_working_dir(working_dir: &str, cwd: Option<&str>) -> (r: GetOpenFixmesTool)
        ensures
            r.store.file() == note_path(working_dir@, crate::text::opt_str(cwd), "fixme.json"@),
            r.store@ == Seq::<FixmeV>::empty(),
    {
        GetOpenFixmesTool { store: FixmeStore::new(working_dir, cwd) }
    }
}

impl Tool for GetOpenFixmesTool {
    fn name(&self) -> (r: &str)
        ensures
            r@ == "get_open_fixmes"@,
    {
        "get_open_fixmes"
    }

    fn description(&self) -> (r: &str)
        ensures
            r@ == "Get all open (not done) fixme notes from fixme.json. Returns a JSON array of entries with done: false."@,
    {
        "Get all open (not done) fixme notes from fixme.json. Returns a JSON array of entries with done: false."
    }

    fn parameters(&self) -> (r: Json)
        ensures
            r@ == no_parameters(),
    {
        no_parameters_json()
    }
}

/// Adds a thing to fix.
#[derive(Debug)]
pub struct CreateFixmeTool {
    pub store: FixmeStore,
}

impl CreateFixmeTool {
    pub fn with_working_dir(working_dir: &str, cwd: Option<&str>) -> (r: CreateFixmeTool)
        ensures
            r.store.file() == note_path(working_dir@, crate::text::opt_str(cwd), "fixme.json"@),
            r.store@ == Seq::<FixmeV>::empty(),
    {
        CreateFixmeTool { store: FixmeStore::new(working_dir, cwd) }
    }

    /// The phrase to note; it must say something.
    pub fn plan(&self, args: &Json) -> (r: Result<String, String>)
        ensures
            match r {
                Ok(p) => args@.str_at("phrase"@) == Some(p@) && trim(p@).len() > 0,
                Err(e) => match args@.str_at("phrase"@) {
                    None => e@ == "Missing 'phrase' parameter"@,
                    Some(p) => trim(p).len() == 0 && e@ == "phrase must not be empty"@,
                },
            },
    {
        match args.str_at("phrase") {
            Some(p) => {
                let bare = trim_str(p);
                if to_chars(bare.as_str()).len() == 0 {
                    Err(owned("phrase must not be empty"))
                } else {
                    Ok(owned(p))
                }
            },
            None => Err(owned("Missing 'phrase' parameter")),
        }
    }
}

pub open spec fn create_fixme_parameters() -> JsonV {
    obj3_v(
        "type"@,
        JsonV::Str("object"@),
        "properties"@,
        obj1_v("phrase"@, param_v("string"@, "The fixme note text to add."@)),
        "required"@,
        text_array_v(seq!["phrase"@]),
    )
}

impl Tool for CreateFixmeTool {
    fn name(&self) -> (r: &str)
        ensures
            r@ == "create_fixme"@,
    {
        "create_fixme"
    }

    fn description(&self) -> (r: &str)
        ensures
            r@ == "Create a new fixme note in fixme.json. Returns the created entry with its generated ID."@,
    {
        "Create a new fixme note in fixme.json. Returns the created entry with its generated ID."
    }

    fn parameters(&self) -> (r: Json)
        ensures
            r@ == create_fixme_parameters(),
    {
        schema(
            obj1("phrase", param("string", "The fixme note text to add.")),
            text_array1("phrase"),
        )
    }
}

/// Marks a thing to fix as done or not.
#[derive(Debug)]
pub struct MarkFixmeDoneTool {
    pub store: FixmeStore,
}

impl MarkFixmeDoneTool {
    pub fn with_working_dir(working_dir: &str, cwd: Option<&str>) -> (r: MarkFixmeDoneTool)
        ensures
            r.store.file() == note_path(working_dir@, crate::text::opt_str(cwd), "fixme.json"@),
            r.store@ == Seq::<FixmeV>::empty(),
    {
        MarkFixmeDoneTool { store: FixmeStore::new(working_dir, cwd) }
    }

    /// Which entry is to be marked, and how.
    pub fn plan(&self, args: &Json) -> (r: Result<(String, bool), String>)
        ensures
            match r {
                Ok(p) => args@.str_at("id"@) == Some(p.0@) && args@.at("done"@).as_bool() == Some(
                    p.1,
                ),
                Err(e) => if args@.str_at("id"@) is None {
                    e@ == "Missing 'id' parameter"@
                } else {
                    args@.at("done"@).as_bool() is None && e@ == "Missing 'done' parameter"@
                },
            },
    {
        let id = match args.str_at("id") {
            Some(i) => i,
            None => return Err(owned("Missing 'id' parameter")),
        };
        let done = match args.get("done") {
            Some(v) => v.as_bool(),
            None => None,
        };
        match done {
            Some(d) => Ok((owned(id), d)),
            None => Err(owned("Missing 'done' parameter")),
        }
    }

    /// What is answered once an entry is marked.
    pub fn done(&self, id: &str, done: bool) -> (r: String)
        ensures
            r@ == "Fixme '"@ + id@ + "' marked as "@ + if done {
                "done"@
            } else {
                "not done"@
            },
    {
        let mut m = concat("Fixme '", id);
        m.append("' marked as ");
        m.append(
            if done {
                "done"
            } else {
                "not done"
            },
        );
        m
    }
}

pub open spec fn mark_fixme_parameters() -> JsonV {
    obj3_v(
        "type"@,
        JsonV::Str("object"@),
        "properties"@,
        obj2_v(
            "id"@,
            param_v("string"@, "The ID of the fixme note to update."@),
            "done"@,
            param_v("boolean"@, "Set to true to mark as done, false to mark as not done."@),
        ),
        "required"@,
        text_array_v(seq!["id"@, "done"@]),
    )
}

impl Tool for MarkFixmeDoneTool {
    fn name(&self) -> (r: &str)
        ensures
            r@ == "mark_fixme_done"@,
    {
        "mark_fixme_done"
    }

    fn description(&self) -> (r: &str)
        ensures
            r@ == "Mark a fixme note as done or not done by its ID. Updates fixme.json atomically."@,
    {
        "Mark a fixme note as done or not done by its ID. Updates fixme.json atomically."
    }

    fn parameters(&self) -> (r: Json)
        ensures
            r@ == mark_fixme_parameters(),
    {
        schema(
            obj2(
                "id",
                param("string", "The ID of the fixme note to update."),
                "done",
                param("boolean", "Set to true to mark as done, false to mark as not done."),
            ),
            text_array2("id", "done"),
        )
    }
}

/// A conclusion or decision.
#[derive(Debug, PartialEq, Eq)]
pub struct ConclusionEntry {
    pub id: String,
    pub text: String,
}

/// The model of a [`ConclusionEntry`].
pub struct ConclusionV {
    pub id: Seq<char>,
    pub text: Seq<char>,
}

impl View for ConclusionEntry {
    type V = ConclusionV;

    open spec fn view(&self) -> ConclusionV {
        ConclusionV { id: self.id@, text: self.text@ }
    }
}

impl Clone for ConclusionEntry {
    fn clone(&self) -> (r: ConclusionEntry)
        ensures
            r@ == self@,
    {
        ConclusionEntry { id: self.id.clone(), text: self.text.clone() }
    }
}

/// The models of the entries of `s`.
pub open spec fn conclusions(s: Seq<ConclusionEntry>) -> Seq<ConclusionV> {
    s.map_values(|c: ConclusionEntry| c@)
}

/// The list of conclusions, and the file that it is kept in.
#[derive(Debug)]
pub struct ConclusionStore {
    path: String,
    entries: Vec<ConclusionEntry>,
}

impl View for ConclusionStore {
    type V = Seq<ConclusionV>;

    closed spec fn view(&self) -> Seq<ConclusionV> {
        conclusions(self.entries@)
    }
}

impl ConclusionStore {
    /// The file that the list is kept in.
    pub closed spec fn file(&self) -> Seq<char> {
        self.path@
    }

    /// An empty list that is kept in the working directory.
    pub fn new(working_dir: &str, cwd: Option<&str>) -> (r: ConclusionStore)
        ensures
            r.file() == note_path(working_dir@, crate::text::opt_str(cwd), "conclusions.json"@),
            r@ == Seq::<ConclusionV>::empty(),
    {
        let r = ConclusionStore {
            path: resolve_note_path(working_dir, cwd, "conclusions.json"),
            entries: Vec::new(),
        };
        assert(r@ =~= Seq::empty());
        r
    }

    /// The file that the list is kept in.
    pub fn path(&self) -> (r: &str)
        ensures
            r@ == self.file(),
    {
        self.path.as_str()
    }

    /// Takes over what the file held.
    pub fn load(&mut self, entries: Vec<ConclusionEntry>)
        ensures
            final(self)@ == conclusions(entries@),
            final(self).file() == old(self).file(),
    {
        self.entries = entries;
    }

    /// Adds an entry under a new id. Returns it.
    pub fn add(&mut self, text: &str) -> (r: ConclusionEntry)
        ensures
            r.text@ == text@,
            r.id@.len() == 36,
            final(self)@ == old(self)@.push(r@),
            final(self).file() == old(self).file(),
    {
        let entry = ConclusionEntry { id: fresh_id(), text: owned(text) };
        let ghost before = self.entries@;
        self.entries.push(entry.clone());
        assert(conclusions(self.entries@) =~= conclusions(before).push(entry@));
        entry
    }

    /// All entries.
    pub fn get_all(&self) -> (r: Vec<ConclusionEntry>)
        ensures
            conclusions(r@) == self@,
    {
        let mut out: Vec<ConclusionEntry> = Vec::new();
        let mut i: usize = 0;
        while i < self.entries.len()
            invariant
                i <= self.entries@.len(),
                out@.len() == i,
                forall|j: int| 0 <= j < i ==> (#[trigger] out@[j])@ == self.entries@[j]@,
            decreases self.entries.len() - i,
        {
            out.push(self.entries[i].clone());
            i = i + 1;
        }
        assert(conclusions(out@) =~= self@);
        out
    }
}

/// Records a conclusion.
#[derive(Debug)]
pub struct RecordConclusionTool {
    pub store: ConclusionStore,
}

impl RecordConclusionTool {
    pub fn with_working_dir(working_dir: &str, cwd: Option<&str>) -> (r: RecordConclusionTool)
        ensures
            r.store.file() == note_path(
                working_dir@,
                crate::text::opt_str(cwd),
                "conclusions.json"@,
            ),
            r.store@ == Seq::<ConclusionV>::empty(),
    {
        RecordConclusionTool { store: ConclusionStore::new(working_dir, cwd) }
    }

    /// The text to record; it must say something.
    pub fn plan(&self, args: &Json) -> (r: Result<String, String>)
        ensures
            match r {
                Ok(t) => args@.str_at("text"@) == Some(t@) && trim(t@).len() > 0,
                Err(e) => match args@.str_at("text"@) {
                    None => e@ == "Missing 'text' parameter"@,
                    Some(t) => trim(t).len() == 0 && e@ == "'text' must not be empty"@,
                },
            },
    {
        match args.str_at("text") {
            Some(t) => {
                let bare = trim_str(t);
                if to_chars(bare.as_str()).len() == 0 {
                    Err(owned("'text' must not be empty"))
                } else {
                    Ok(owned(t))
                }
            },
            None => Err(owned("Missing 'text' parameter")),
        }
    }

    /// The answer to a recorded conclusion.
    pub fn done(&self) -> (r: String)
        ensures
            r@ == "Conclusion recorded."@,
    {
        owned("Conclusion recorded.")
    }
}

pub open spec fn record_conclusion_parameters() -> JsonV {
    obj3_v(
        "type"@,
        JsonV::Str("object"@),
        "properties"@,
        obj1_v(
            "text"@,
            param_v(
                "string"@,
                "The distilled conclusion or decision to record. One or two sentences: what you concluded and why / what you will do next."@,
            ),
        ),
        "required"@,
        text_array_v(seq!["text"@]),
    )
}

impl Tool for RecordConclusionTool {
    fn name(&self) -> (r: &str)
        ensures
            r@ == "record_conclusion"@,
    {
        "record_conclusion"
    }

    fn description(&self) -> (r: &str)
        ensures
            r@ == "Record a distilled conclusion, decision, or key finding so it becomes a durable part of the conversation and survives across turns. Call this at phase boundaries (after exploring/understanding something, before making significant edits, after verifying a result) to anchor what you have decided and why. Keep the text short and specific — a sentence or two, not a transcript of your thinking."@,
    {
        "Record a distilled conclusion, decision, or key finding so it becomes a durable part of the conversation and survives across turns. Call this at phase boundaries (after exploring/understanding something, before making significant edits, after verifying a result) to anchor what you have decided and why. Keep the text short and specific — a sentence or two, not a transcript of your thinking."
    }

    fn parameters(&self) -> (r: Json)
        ensures
            r@ == record_conclusion_parameters(),
    {
        schema(
            obj1(
                "text",
                param(
                    "string",
                    "The distilled conclusion or decision to record. One or two sentences: what you concluded and why / what you will do next.",
                ),
            ),
            text_array1("text"),
        )
    }
}

/// Gets all conclusions.
#[derive(Debug)]
pub struct GetConclusionsTool {
    pub store: ConclusionStore,
}

/// What a list of conclusions is answered with: its JSON text, which the caller wrote, or a
/// word where there are none.
pub fn format_conclusions(list: &[ConclusionEntry], written: &str) -> (r: String)
    ensures
        r@ == (if list@.len() == 0 {
            "No conclusions recorded yet."@
        } else {
            written@
        }),
{
    if list.len() == 0 {
        owned("No conclusions recorded yet.")
    } else {
        owned(written)
    }
}

impl GetConclusionsTool {
    pub fn with_working_dir(working_dir: &str, cwd: Option<&str>) -> (r: GetConclusionsTool)
        ensures
            r.store.file() == note_path(
                working_dir@,
                crate::text::opt_str(cwd),
                "conclusions.json"@,
            ),
            r.store@ == Seq::<ConclusionV>::empty(),
    {
        GetConclusionsTool { store: ConclusionStore::new(working_dir, cwd) }
    }
}

impl Tool for GetConclusionsTool {
    fn name(&self) -> (r: &str)
        ensures
            r@ == "get_conclusions"@,
    {
        "get_conclusions"
    }

    fn description(&self) -> (r: &str)
        ensures
            r@ == "Get all conclusions recorded so far from conclusions.json. Returns a JSON array of entries. Use this to recall earlier decisions, especially after a long stretch of tool use or when resuming a saved session."@,
    {
        "Get all conclusions recorded so far from conclusions.json. Returns a JSON array of entries. Use this to recall earlier decisions, especially after a long stretch of tool use or when resuming a saved session."
    }

    fn parameters(&self) -> (r: Json)
        ensures
            r@ == no_parameters(),
    {
        no_parameters_json()
    }
}

/// An entry that is marked as done is no longer open, and one marked as not done is: the
/// open entries afterwards are the others as before, and the entry itself as it was marked.
pub proof fn lemma_marking_moves_one(s: Seq<FixmeV>, i: int, done: bool)
    requires
        0 <= i < s.len(),
    ensures
        ({
            let t = s.update(i, FixmeV { done, ..s[i] });
            open_fixmes(t) == open_fixmes(s.take(i)) + (if done {
                Seq::empty()
            } else {
                seq![FixmeV { done, ..s[i] }]
            }) + open_fixmes(s.skip(i + 1))
        }),
{
    let e = FixmeV { done, ..s[i] };
    let t = s.update(i, e);
    let keep = |f: FixmeV| !f.done;
    assert(t =~= s.take(i) + seq![e] + s.skip(i + 1));
    Seq::filter_distributes_over_add(s.take(i) + seq![e], s.skip(i + 1), keep);
    Seq::filter_distributes_over_add(s.take(i), seq![e], keep);
    assert(seq![e].filter(keep) =~= if done {
        Seq::<FixmeV>::empty()
    } else {
        seq![e]
    }) by {
        reveal_with_fuel(Seq::filter, 2);
        assert(seq![e].drop_last() =~= Seq::<FixmeV>::empty());
    }
}

} // verus!
