//! What the bus knows of its topics and of the actors that announced themselves, and whom it
//! lets speak. The channels themselves are not here.

use crate::actor::{ActorAnnouncement, AnnouncementV, TopicAnnouncement};
use crate::server::{announcements, TopicV};
use crate::string_set::{position, StringSet};
use crate::text::{clone_strings, owned, same, texts};
use vstd::prelude::*;

verus! {

/// Why a message does not go out.
#[derive(Debug)]
pub enum BusError {
    /// Its sender did not announce itself.
    NotAnnounced(String),
    /// There is no such topic.
    TopicNotFound(String),
}

impl BusError {
    pub open spec fn words(&self) -> Seq<char> {
        match self {
            BusError::NotAnnounced(id) => "Actor not announced: "@ + id@,
            BusError::TopicNotFound(t) => "Topic not found: "@ + t@,
        }
    }

    /// The error in words.
    pub fn message(&self) -> (r: String)
        ensures
            r@ == self.words(),
    {
        match self {
            BusError::NotAnnounced(id) => {
                let mut m = owned("Actor not announced: ");
                m.append(id.as_str());
                m
            },
            BusError::TopicNotFound(t) => {
                let mut m = owned("Topic not found: ");
                m.append(t.as_str());
                m
            },
        }
    }
}

/// The topics of a bus and the announcements of its actors, one for each.
#[derive(Debug)]
pub struct BusRegistry {
    topics: StringSet,
    announced: Vec<ActorAnnouncement>,
}

/// The model of a [`BusRegistry`].
#[verifier::ext_equal]
pub struct RegistryV {
    pub topics: Set<Seq<char>>,
    pub announced: Seq<AnnouncementV>,
}

impl View for BusRegistry {
    type V = RegistryV;

    closed spec fn view(&self) -> RegistryV {
        RegistryV { topics: self.topics@, announced: announcements(self.announced@) }
    }
}

/// The position, from `i` on, of the announcement of the actor.
pub open spec fn announced_from(s: Seq<AnnouncementV>, id: Seq<char>, i: int) -> Option<int>
    decreases s.len() - i,
{
    if i < 0 || i >= s.len() {
        None
    } else if s[i].id == id {
        Some(i)
    } else {
        announced_from(s, id, i + 1)
    }
}

/// The announcements with one more: in the place of an earlier one of the same actor, or at
/// the end.
pub open spec fn announcing(s: Seq<AnnouncementV>, a: AnnouncementV) -> Seq<AnnouncementV> {
    match announced_from(s, a.id, 0) {
        Some(i) => s.update(i, a),
        None => s.push(a),
    }
}

/// Whether the announcement names the topic.
pub open spec fn names_topic(a: AnnouncementV, t: Seq<char>) -> bool {
    a.subscriptions.contains(t) || a.publications.contains(t)
}

/// Whether an announcement names the topic.
pub open spec fn announced_by(s: Seq<AnnouncementV>, t: Seq<char>) -> bool {
    exists|a: int| 0 <= a < s.len() && #[trigger] names_topic(s[a], t)
}

/// Those of the first `n` actors that listen to the topic.
pub open spec fn listeners(s: Seq<AnnouncementV>, t: Seq<char>, n: int) -> Seq<Seq<char>>
    decreases n,
{
    if n <= 0 {
        Seq::empty()
    } else if s[n - 1].subscriptions.contains(t) {
        listeners(s, t, n - 1).push(s[n - 1].id)
    } else {
        listeners(s, t, n - 1)
    }
}

/// Those of the first `n` actors that speak on the topic.
pub open spec fn speakers(s: Seq<AnnouncementV>, t: Seq<char>, n: int) -> Seq<Seq<char>>
    decreases n,
{
    if n <= 0 {
        Seq::empty()
    } else if s[n - 1].publications.contains(t) {
        speakers(s, t, n - 1).push(s[n - 1].id)
    } else {
        speakers(s, t, n - 1)
    }
}

/// A topic as the announcements have it.
pub open spec fn topic_of(s: Seq<AnnouncementV>, t: Seq<char>) -> TopicV {
    TopicV {
        name: t,
        subscribers: listeners(s, t, s.len() as int),
        publishers: speakers(s, t, s.len() as int),
    }
}

fn insert_all(set: &mut StringSet, v: &Vec<String>)
    ensures
        final(set)@ == old(set)@.union(texts(v@).to_set()),
{
    let ghost before = set@;
    assert(before =~= before.union(texts(v@).take(0).to_set()));
    for i in 0..v.len()
        invariant
            set@ == before.union(texts(v@).take(i as int).to_set()),
    {
        set.insert(v[i].as_str());
        proof {
            let t = texts(v@);
            assert(t.take(i + 1) =~= t.take(i as int).push(t[i as int]));
            t.take(i as int).lemma_push_to_set_commute(t[i as int]);
            assert(set@ =~= before.union(t.take(i + 1).to_set()));
        }
    }
    assert(texts(v@).take(v@.len() as int) =~= texts(v@));
}

impl BusRegistry {
    /// A bus without topics and actors.
    pub fn new() -> (r: BusRegistry)
        ensures
            r@ == (RegistryV { topics: Set::empty(), announced: Seq::empty() }),
    {
        let r = BusRegistry { topics: StringSet::new(), announced: Vec::new() };
        assert(announcements(r.announced@) =~= Seq::empty());
        r
    }

    /// Adds a topic; whether it is new.
    pub fn create_topic(&mut self, name: &str) -> (r: bool)
        ensures
            final(self)@ == (RegistryV { topics: old(self)@.topics.insert(name@), ..old(self)@ }),
            r == !old(self)@.topics.contains(name@),
    {
        self.topics.insert(name)
    }

    /// The topics, each once.
    pub fn list_topics(&self) -> (r: Vec<String>)
        ensures
            texts(r@).no_duplicates(),
            texts(r@).to_set() == self@.topics,
    {
        clone_strings(self.topics.items().as_slice())
    }

    fn slot(&self, id: &str) -> (r: Option<usize>)
        ensures
            match r {
                Some(i) => i < self.announced@.len() && announced_from(self@.announced, id@, 0)
                    == Some(i as int),
                None => announced_from(self@.announced, id@, 0) is None,
            },
    {
        let ghost s = announcements(self.announced@);
        let mut i: usize = 0;
        while i < self.announced.len()
            invariant
                i <= self.announced@.len(),
                s == announcements(self.announced@),
                announced_from(s, id@, 0) == announced_from(s, id@, i as int),
            decreases self.announced.len() - i,
        {
            assert(s[i as int].id == self.announced@[i as int].id@);
            if same(self.announced[i].id.as_str(), id) {
                return Some(i);
            }
            i = i + 1;
        }
        None
    }

    /// Takes the announcement of an actor, in the place of an earlier one.
    pub fn register_announcement(&mut self, a: ActorAnnouncement)
        ensures
            final(self)@ == (RegistryV {
                announced: announcing(old(self)@.announced, a@),
                ..old(self)@
            }),
    {
        let ghost before = announcements(self.announced@);
        match self.slot(a.id.as_str()) {
            Some(i) => {
                self.announced.set(i, a);
                assert(announcements(self.announced@) =~= before.update(i as int, a@));
            },
            None => {
                self.announced.push(a);
                assert(announcements(self.announced@) =~= before.push(a@));
            },
        }
    }

    /// The announcements, in the order in which the actors first announced themselves.
    pub fn list_announced_actors(&self) -> (r: &Vec<ActorAnnouncement>)
        ensures
            announcements(r@) == self@.announced,
    {
        &self.announced
    }

    /// Whether the actor may publish on the topic: it announced itself, and the topic is there.
    pub fn may_publish(&self, actor_id: &str, topic: &str) -> (r: Result<(), BusError>)
        ensures
            match r {
                Ok(()) => announced_from(self@.announced, actor_id@, 0) is Some
                    && self@.topics.contains(topic@),
                Err(BusError::NotAnnounced(id)) => announced_from(self@.announced, actor_id@, 0)
                    is None && id@ == actor_id@,
                Err(BusError::TopicNotFound(t)) => announced_from(self@.announced, actor_id@, 0)
                    is Some && !self@.topics.contains(topic@) && t@ == topic@,
            },
    {
        if self.slot(actor_id).is_none() {
            return Err(BusError::NotAnnounced(owned(actor_id)));
        }
        if !self.topics.contains(topic) {
            return Err(BusError::TopicNotFound(owned(topic)));
        }
        Ok(())
    }

    /// Every topic that an announcement names, once, with the actors that listen to it and
    /// those that speak on it.
    pub fn list_announced_topics(&self) -> (r: Vec<TopicAnnouncement>)
        ensures
            ({
                let s = self@.announced;
                &&& forall|i: int, j: int|
                    0 <= i < j < r@.len() ==> (#[trigger] r@[i])@.name != (#[trigger] r@[j])@.name
                &&& forall|i: int|
                    0 <= i < r@.len() ==> (#[trigger] r@[i])@ == topic_of(s, r@[i]@.name)
                &&& forall|a: int, t: Seq<char>|
                    0 <= a < s.len() && #[trigger] names_topic(s[a], t) ==> exists|i: int|
                        0 <= i < r@.len() && (#[trigger] r@[i])@.name == t
                &&& forall|i: int|
                    0 <= i < r@.len() ==> announced_by(s, (#[trigger] r@[i])@.name)
            }),
    {
        let ghost s = announcements(self.announced@);
        let n: usize = self.announced.len();
        let mut names = StringSet::new();
        for a in 0..n
            invariant
                n == self.announced@.len(),
                s == announcements(self.announced@),
                forall|b: int, t: Seq<char>|
                    0 <= b < a && #[trigger] names_topic(s[b], t) ==> names@.contains(t),
                forall|t: Seq<char>| #[trigger] names@.contains(t) ==> announced_by(s, t),
        {
            let ghost before = names@;
            insert_all(&mut names, &self.announced[a].subscriptions);
            insert_all(&mut names, &self.announced[a].publications);
            assert forall|b: int, t: Seq<char>|
                0 <= b < a + 1 && #[trigger] names_topic(s[b], t) implies names@.contains(t) by {
                if b == a {
                    assert(s[b].subscriptions == texts(self.announced@[a as int].subscriptions@));
                    assert(s[b].publications == texts(self.announced@[a as int].publications@));
                } else {
                    assert(before.contains(t));
                }
            }
            assert forall|t: Seq<char>| #[trigger] names@.contains(t) implies announced_by(
                s,
                t,
            ) by {
                if !before.contains(t) {
                    assert(s[a as int].subscriptions == texts(
                        self.announced@[a as int].subscriptions@,
                    ));
                    assert(s[a as int].publications == texts(
                        self.announced@[a as int].publications@,
                    ));
                    assert(names_topic(s[a as int], t));
                }
            }
        }
        let items = names.items();
        let ghost ts = texts(items@);
        let mut out: Vec<TopicAnnouncement> = Vec::new();
        for k in 0..items.len()
            invariant
                ts == texts(items@),
                out@.len() == k,
                n == self.announced@.len(),
                s == announcements(self.announced@),
                forall|i: int| 0 <= i < k ==> (#[trigger] out@[i])@ == topic_of(s, ts[i]),
        {
            let name = items[k].as_str();
            let mut subs: Vec<String> = Vec::new();
            let mut pubs: Vec<String> = Vec::new();
            assert(texts(subs@) =~= Seq::empty());
            assert(texts(pubs@) =~= Seq::empty());
            for a in 0..n
                invariant
                    n == self.announced@.len(),
                    s == announcements(self.announced@),
                    texts(subs@) == listeners(s, name@, a as int),
                    texts(pubs@) == speakers(s, name@, a as int),
            {
                let x = &self.announced[a];
                assert(s[a as int].subscriptions == texts(x.subscriptions@));
                assert(s[a as int].publications == texts(x.publications@));
                let ghost (sb, pb) = (subs@, pubs@);
                match position(&x.subscriptions, name) {
                    Some(i) => {
                        assert(texts(x.subscriptions@)[i as int] == name@);
                        subs.push(x.id.clone());
                        assert(texts(subs@) =~= texts(sb).push(x.id@));
                    },
                    None => {
                        assert(!texts(x.subscriptions@).contains(name@));
                    },
                }
                match position(&x.publications, name) {
                    Some(i) => {
                        assert(texts(x.publications@)[i as int] == name@);
                        pubs.push(x.id.clone());
                        assert(texts(pubs@) =~= texts(pb).push(x.id@));
                    },
                    None => {
                        assert(!texts(x.publications@).contains(name@));
                    },
                }
            }
            out.push(TopicAnnouncement { name: owned(name), subscribers: subs, publishers: pubs });
        }
        proof {
            assert forall|a: int, t: Seq<char>|
                0 <= a < s.len() && #[trigger] names_topic(s[a], t) implies exists|i: int|
                0 <= i < out@.len() && (#[trigger] out@[i])@.name == t by {
                assert(ts.to_set().contains(t));
                let i = choose|i: int| 0 <= i < ts.len() && ts[i] == t;
                assert(out@[i]@.name == t);
            }
            assert forall|i: int, j: int| 0 <= i < j < out@.len() implies (#[trigger] out@[i])@.name
                != (#[trigger] out@[j])@.name by {
                assert(ts[i] != ts[j]);
            }
            assert forall|i: int| 0 <= i < out@.len() implies announced_by(
                s,
                (#[trigger] out@[i])@.name,
            ) by {
                assert(ts.to_set().contains(ts[i]));
                assert(names@.contains(ts[i]));
            }
        }
        out
    }
}

/// The actors that announced themselves stay announced, and no announcement adds a second
/// entry for an actor.
pub proof fn lemma_announcing(s: Seq<AnnouncementV>, a: AnnouncementV, id: Seq<char>)
    requires
        forall|i: int, j: int| 0 <= i < j < s.len() ==> (#[trigger] s[i]).id != (#[trigger] s[j]).id,
    ensures
        forall|i: int, j: int|
            0 <= i < j < announcing(s, a).len() ==> (#[trigger] announcing(s, a)[i]).id
                != (#[trigger] announcing(s, a)[j]).id,
        announced_from(announcing(s, a), id, 0) is Some <==> (id == a.id || announced_from(
            s,
            id,
            0,
        ) is Some),
{
    let t = announcing(s, a);
    lemma_announced_from(s, a.id, 0);
    lemma_announced_from(s, id, 0);
    lemma_announced_from(t, id, 0);
    match announced_from(s, a.id, 0) {
        Some(i) => {
            assert(t[i] == a);
        },
        None => {
            assert(t[s.len() as int] == a);
        },
    }
    if let Some(p) = announced_from(s, id, 0) {
        assert(t[p].id == id);
    }
    if let Some(p) = announced_from(t, id, 0) {
        assert(t[p].id == id);
        if id != a.id {
            assert(p < s.len() && s[p].id == id);
        }
    }
}

proof fn lemma_announced_from(s: Seq<AnnouncementV>, id: Seq<char>, i: int)
    requires
        0 <= i,
    ensures
        announced_from(s, id, i) matches Some(p) ==> i <= p < s.len() && s[p].id == id,
        announced_from(s, id, i) is None ==> forall|q: int| i <= q < s.len() ==> s[q].id != id,
    decreases s.len() - i,
{
    if i < s.len() && s[i].id != id {
        lemma_announced_from(s, id, i + 1);
    }
}

} // verus!
