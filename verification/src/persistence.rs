//! Saving and loading agents: which files are written and read, and what is answered.
//!
//! Commands name an agent and a file. A save asks the agent for its state and waits for it;
//! a load reads the file and hands the state to the agent.

use crate::actor::{push_topic, Actor, ActorAnnouncement, ActorId, AnnouncementV};
use crate::json::{json_error, json_parse, json_pretty, lemma_key_is, lemma_same_value_get};
use crate::json::{obj2, obj2_v, obj3, obj3_v, Json, JsonV};
use crate::message::{Message, MessageV};
use crate::string_map::StringMap;
use crate::text::{dec, dec_text, owned, same, texts, to_chars};
use vstd::prelude::*;

verus! {

/// The actor that saves and loads agents.
#[derive(Debug)]
pub struct PersistenceActor {
    pub index: usize,
    pub command_topic: String,
    pub response_topic: String,
    pub state_control_topic: String,
    pub state_topic: String,
}

/// What a command calls for.
#[derive(Debug)]
pub enum PersistenceStep {
    /// Nothing.
    Nothing,
    /// Publish the answer.
    Answer(Message),
    /// Publish the request for the agent's state; the save is pending.
    AskForState { agent_id: String, request: Message },
    /// Read the file.
    ReadFile { agent_id: String, filename: String },
}

/// What a state that came in calls for.
#[derive(Debug)]
pub struct FileToWrite {
    pub filename: String,
    pub text: String,
}

/// The document in a file.
pub open spec fn saved_document(agent_id: Seq<char>, state: JsonV) -> JsonV {
    obj3_v("version"@, JsonV::Int(1), "agent_id"@, JsonV::Str(agent_id), "state"@, state)
}

/// The state in a document: under `state`, or the document itself.
pub open spec fn loaded_state(doc: JsonV) -> JsonV {
    match doc.get("state"@) {
        Some(s) => s,
        None => doc,
    }
}

impl PersistenceActor {
    /// The actor's name.
    pub open spec fn name(&self) -> Seq<char> {
        "gladiator-persistence-"@ + dec(self.index as int)
    }

    pub fn new(
        index: usize,
        command_topic: String,
        response_topic: String,
        state_control_topic: String,
        state_topic: String,
    ) -> (r: PersistenceActor)
        ensures
            r == (PersistenceActor {
                index,
                command_topic,
                response_topic,
                state_control_topic,
                state_topic,
            }),
    {
        PersistenceActor { index, command_topic, response_topic, state_control_topic, state_topic }
    }

    /// An answer.
    pub open spec fn answer(&self, success: bool, message: Seq<char>) -> MessageV {
        MessageV::new(
            self.response_topic@,
            self.name(),
            obj2_v("success"@, JsonV::Bool(success), "message"@, JsonV::Str(message)),
        ).with_type("PersistenceResponse"@)
    }

    /// An answer.
    pub fn response(&self, success: bool, message: &str) -> (r: Message)
        ensures
            r@ == self.answer(success, message@),
    {
        Message::new(
            self.response_topic.as_str(),
            self.id().as_str(),
            obj2("success", Json::Bool(success), "message", Json::text(message)),
        ).with_type("PersistenceResponse")
    }

    /// The answer that puts a detail behind a text.
    fn response_with(&self, success: bool, message: &str, detail: &str) -> (r: Message)
        ensures
            r@ == self.answer(success, message@ + detail@),
    {
        let mut m = owned(message);
        m.append(detail);
        self.response(success, m.as_str())
    }

    /// The request for an agent's state.
    pub open spec fn dump_request(&self, agent_id: Seq<char>) -> MessageV {
        MessageV::new(
            self.state_control_topic@,
            self.name(),
            obj2_v("type"@, JsonV::Str("dump_state"@), "agent_id"@, JsonV::Str(agent_id)),
        )
    }

    /// The state for an agent to take on.
    pub open spec fn load_request(&self, agent_id: Seq<char>, state: JsonV) -> MessageV {
        MessageV::new(
            self.state_control_topic@,
            self.name(),
            obj3_v(
                "type"@,
                JsonV::Str("load_state"@),
                "agent_id"@,
                JsonV::Str(agent_id),
                "state"@,
                state,
            ),
        )
    }

    /// A command. `pending` holds the file for each agent whose state is awaited.
    pub fn on_command(&self, pending: &mut StringMap, payload: &Json) -> (r: PersistenceStep)
        ensures
            ({
                let action = payload@.str_or("action"@, ""@);
                let file = payload@.str_or("filename"@, ""@);
                let agent = payload@.str_or("agent_id"@, ""@);
                let known = action == "save"@ || action == "load"@;
                &&& final(pending)@ == if action == "save"@ && file.len() > 0 && agent.len() > 0 {
                    old(pending)@.insert(agent, file)
                } else {
                    old(pending)@
                }
                &&& match r {
                    PersistenceStep::Nothing => !known,
                    PersistenceStep::Answer(m) => known && (file.len() == 0 || agent.len() == 0) && m@
                        == self.answer(false, "Missing filename or agent_id"@),
                    PersistenceStep::AskForState { agent_id, request } => action == "save"@
                        && file.len() > 0 && agent.len() > 0 && agent_id@ == agent && request@
                        == self.dump_request(agent),
                    PersistenceStep::ReadFile { agent_id, filename } => action == "load"@
                        && file.len() > 0 && agent.len() > 0 && agent_id@ == agent && filename@
                        == file,
                }
            }),
    {
        proof {
            reveal_strlit("save");
            reveal_strlit("load");
            assert("save"@[0] != "load"@[0]);
        }
        let action = payload.str_or("action", "");
        let filename = payload.str_or("filename", "");
        let agent_id = payload.str_or("agent_id", "");
        let save = same(action, "save");
        if !save && !same(action, "load") {
            return PersistenceStep::Nothing;
        }
        if to_chars(filename).len() == 0 || to_chars(agent_id).len() == 0 {
            return PersistenceStep::Answer(self.response(false, "Missing filename or agent_id"));
        }
        if save {
            pending.insert(agent_id, filename);
            let request = Message::new(
                self.state_control_topic.as_str(),
                self.id().as_str(),
                obj2("type", Json::text("dump_state"), "agent_id", Json::text(agent_id)),
            );
            PersistenceStep::AskForState { agent_id: owned(agent_id), request }
        } else {
            PersistenceStep::ReadFile { agent_id: owned(agent_id), filename: owned(filename) }
        }
    }

    /// The request for an agent's state could not be published: the save is off.
    pub fn on_ask_failed(&self, pending: &mut StringMap, agent_id: &str, error: &str) -> (r: Message)
        ensures
            final(pending)@ == old(pending)@.remove(agent_id@),
            r@ == self.answer(false, "Failed to request state: "@ + error@),
    {
        pending.remove(agent_id);
        self.response_with(false, "Failed to request state: ", error)
    }

    /// A file was read for a load: the message for the agent, or the answer that it failed.
    pub fn on_file_read(&self, agent_id: &str, content: Result<&str, &str>) -> (r: Result<
        Message,
        Message,
    >)
        ensures
            match content {
                Ok(text) => match json_parse(text@) {
                    Some(doc) => r matches Ok(m) && m@ == self.load_request(
                        agent_id@,
                        loaded_state(doc),
                    ),
                    None => r matches Err(m) && m@ == self.answer(
                        false,
                        "Failed to parse state file: "@ + json_error(text@),
                    ),
                },
                Err(e) => r matches Err(m) && m@ == self.answer(
                    false,
                    "Failed to read file: "@ + e@,
                ),
            },
    {
        let text = match content {
            Ok(t) => t,
            Err(e) => return Err(self.response_with(false, "Failed to read file: ", e)),
        };
        let doc = match Json::read(text) {
            Ok(j) => j,
            Err(e) => return Err(
                self.response_with(false, "Failed to parse state file: ", e.as_str()),
            ),
        };
        let state = match doc.get("state") {
            Some(s) => s.clone(),
            None => doc.clone(),
        };
        Ok(
            Message::new(
                self.state_control_topic.as_str(),
                self.id().as_str(),
                obj3(
                    "type",
                    Json::text("load_state"),
                    "agent_id",
                    Json::text(agent_id),
                    "state",
                    state,
                ),
            ),
        )
    }

    /// The answer to a load, by whether its message could be published.
    pub fn on_load_published(&self, filename: &str, published: Result<(), &str>) -> (r: Message)
        ensures
            r@ == (match published {
                Ok(_) => self.answer(true, "Loaded state from "@ + filename@),
                Err(e) => self.answer(false, "Failed to publish load_state: "@ + e@),
            }),
    {
        match published {
            Ok(_) => self.response_with(true, "Loaded state from ", filename),
            Err(e) => self.response_with(false, "Failed to publish load_state: ", e),
        }
    }

    /// A state came in: the file to write, where a save waits for it. A state that can be
    /// written and read back loads from it as the same, but for the order of entries.
    pub fn on_state(&self, pending: &mut StringMap, payload: &Json) -> (r: Option<FileToWrite>)
        ensures
            ({
                let agent = payload@.str_or("agent_id"@, ""@);
                let state = payload@.at("state"@);
                &&& final(pending)@ == old(pending)@.remove(agent)
                &&& match r {
                    Some(f) => {
                        &&& old(pending)@.dom().contains(agent)
                        &&& f.filename@ == old(pending)@[agent]
                        &&& f.text@ == json_pretty(saved_document(agent, state))
                        &&& state.writable(126) ==> (json_parse(f.text@) matches Some(doc)
                            && state.same_value(loaded_state(doc)))
                    },
                    None => !old(pending)@.dom().contains(agent),
                }
            }),
    {
        let agent_id = payload.str_or("agent_id", "");
        let filename = match pending.remove(agent_id) {
            Some(f) => f,
            None => return None,
        };
        let state = match payload.get("state") {
            Some(s) => s.clone(),
            None => Json::Null,
        };
        let doc = obj3(
            "version",
            Json::UInt(1),
            "agent_id",
            Json::text(agent_id),
            "state",
            state,
        );
        let text = doc.write_pretty();
        proof {
            if state@.writable(126) {
                lemma_document(agent_id@, state@);
                let w = json_parse(text@).unwrap();
                lemma_same_value_get(doc@, w, "state"@);
            }
        }
        Some(FileToWrite { filename, text })
    }

    /// The answer to a save, by whether its file could be written.
    pub fn on_file_written(&self, filename: &str, written: Result<(), &str>) -> (r: Message)
        ensures
            r@ == (match written {
                Ok(_) => self.answer(true, "Saved state to "@ + filename@),
                Err(e) => self.answer(false, "Failed to write file: "@ + e@),
            }),
    {
        match written {
            Ok(_) => self.response_with(true, "Saved state to ", filename),
            Err(e) => self.response_with(false, "Failed to write file: ", e),
        }
    }
}

proof fn lemma_document(agent_id: Seq<char>, state: JsonV)
    requires
        state.writable(126),
    ensures
        saved_document(agent_id, state).writable(127),
        saved_document(agent_id, state).get("state"@) == Some(state),
{
    reveal_strlit("version");
    reveal_strlit("agent_id");
    reveal_strlit("state");
    let o = saved_document(agent_id, state)->Object_0;
    assert(o[0].0.len() == 7 && o[1].0.len() == 8 && o[2].0.len() == 5);
    lemma_key_is(o, "state"@, 0, 2);
    assert(o[0].1.nests_within(126));
    assert(o[1].1.nests_within(126));
    reveal_strlit("$serde_json::private::RawValue");
    assert(crate::json::reserved_key().len() == 30);
    assert forall|i: int| 0 <= i < o.len() implies (#[trigger] o[i]).1.writable(126) by {
        assert(i == 0 || i == 1 || i == 2);
    }
}

/// What the actor announces.
pub open spec fn persistence_announcement(a: &PersistenceActor) -> AnnouncementV {
    AnnouncementV {
        id: a.name(),
        subscriptions: seq![a.command_topic@, a.state_topic@],
        publications: seq![a.response_topic@, a.state_control_topic@],
    }
}

impl Actor for PersistenceActor {
    fn id(&self) -> (r: ActorId)
        ensures
            r@ == self.name(),
    {
        let mut out = owned("gladiator-persistence-");
        out.append(dec_text(self.index as u64).as_str());
        out
    }

    fn announce(&self) -> (r: ActorAnnouncement)
        ensures
            r@ == persistence_announcement(self),
    {
        let mut subs: Vec<String> = Vec::new();
        assert(texts(subs@) =~= Seq::empty());
        push_topic(&mut subs, self.command_topic.as_str());
        push_topic(&mut subs, self.state_topic.as_str());
        assert(texts(subs@) =~= seq![self.command_topic@, self.state_topic@]);
        let mut pubs: Vec<String> = Vec::new();
        assert(texts(pubs@) =~= Seq::empty());
        push_topic(&mut pubs, self.response_topic.as_str());
        push_topic(&mut pubs, self.state_control_topic.as_str());
        assert(texts(pubs@) =~= seq![self.response_topic@, self.state_control_topic@]);
        ActorAnnouncement { id: self.id(), subscriptions: subs, publications: pubs }
    }
}

} // verus!
