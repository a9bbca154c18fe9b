//! What the HTTP server answers: the topics and actors of the bus, and the outcome of a
//! publication.

use crate::actor::{push_topic, ActorAnnouncement, AnnouncementV, TopicAnnouncement};
use crate::json::Json;
use crate::message::{Message, MessageV};
use crate::sorting::{not_after, place, sorted_by};
use crate::string_set::position;
use crate::text::{clone_strings, owned, same, texts};
use vstd::prelude::*;

verus! {

/// An actor, as the server lists it.
#[derive(Debug)]
pub struct ActorInfoResponse {
    pub id: String,
    pub subscriptions: Vec<String>,
    pub publications: Vec<String>,
    /// Whether the actor announced itself.
    pub announced: bool,
}

/// The model of an [`ActorInfoResponse`].
pub struct ActorInfoV {
    pub id: Seq<char>,
    pub subscriptions: Seq<Seq<char>>,
    pub publications: Seq<Seq<char>>,
    pub announced: bool,
}

impl View for ActorInfoResponse {
    type V = ActorInfoV;

    open spec fn view(&self) -> ActorInfoV {
        ActorInfoV {
            id: self.id@,
            subscriptions: texts(self.subscriptions@),
            publications: texts(self.publications@),
            announced: self.announced,
        }
    }
}

/// A topic that actors announced, as the server lists it.
#[derive(Debug)]
pub struct TopicAnnouncementResponse {
    pub name: String,
    pub subscribers: Vec<String>,
    pub publishers: Vec<String>,
}

/// A topic, as the server lists it.
#[derive(Debug)]
pub struct TopicInfoResponse {
    pub name: String,
    pub subscribers: Vec<String>,
    pub publishers: Vec<String>,
}

/// The model of a topic.
pub struct TopicV {
    pub name: Seq<char>,
    pub subscribers: Seq<Seq<char>>,
    pub publishers: Seq<Seq<char>>,
}

impl View for TopicAnnouncement {
    type V = TopicV;

    open spec fn view(&self) -> TopicV {
        TopicV {
            name: self.name@,
            subscribers: texts(self.subscribers@),
            publishers: texts(self.publishers@),
        }
    }
}

impl View for TopicAnnouncementResponse {
    type V = TopicV;

    open spec fn view(&self) -> TopicV {
        TopicV {
            name: self.name@,
            subscribers: texts(self.subscribers@),
            publishers: texts(self.publishers@),
        }
    }
}

impl View for TopicInfoResponse {
    type V = TopicV;

    open spec fn view(&self) -> TopicV {
        TopicV {
            name: self.name@,
            subscribers: texts(self.subscribers@),
            publishers: texts(self.publishers@),
        }
    }
}

/// The models of the topics of `s`.
pub open spec fn topics(s: Seq<TopicAnnouncement>) -> Seq<TopicV> {
    s.map_values(|t: TopicAnnouncement| t@)
}

/// The models of the topics of `s`.
pub open spec fn topic_infos(s: Seq<TopicInfoResponse>) -> Seq<TopicV> {
    s.map_values(|t: TopicInfoResponse| t@)
}

/// The models of the topics of `s`.
pub open spec fn topic_announcements(s: Seq<TopicAnnouncementResponse>) -> Seq<TopicV> {
    s.map_values(|t: TopicAnnouncementResponse| t@)
}

/// The models of the announcements of `s`.
pub open spec fn announcements(s: Seq<ActorAnnouncement>) -> Seq<AnnouncementV> {
    s.map_values(|a: ActorAnnouncement| a@)
}

/// The models of the actors of `s`.
pub open spec fn actor_infos(s: Seq<ActorInfoResponse>) -> Seq<ActorInfoV> {
    s.map_values(|a: ActorInfoResponse| a@)
}

/// What a client publishes.
#[derive(Debug)]
pub struct PublishRequest {
    pub topic: String,
    pub source: String,
    pub payload: Json,
}

/// The answer to a publication.
#[derive(Debug)]
pub struct PublishResponse {
    pub success: bool,
    pub topic: String,
}

/// The answer to a request that failed.
#[derive(Debug)]
pub struct ErrorResponse {
    pub error: String,
}

/// The answer to a question after the server's health.
pub fn health() -> (r: &'static str)
    ensures
        r@ == "ok"@,
{
    "ok"
}

/// The last of the first `n` topics with the name.
pub open spec fn last_named(s: Seq<TopicV>, name: Seq<char>, n: int) -> Option<int>
    decreases n,
{
    if n <= 0 {
        None
    } else if s[n - 1].name == name {
        Some(n - 1)
    } else {
        last_named(s, name, n - 1)
    }
}

/// The texts, and of the first `n` others those that are not yet there.
pub open spec fn joined(s: Seq<Seq<char>>, other: Seq<Seq<char>>, n: int) -> Seq<Seq<char>>
    decreases n,
{
    if n <= 0 {
        s
    } else {
        let t = joined(s, other, n - 1);
        if t.contains(other[n - 1]) {
            t
        } else {
            t.push(other[n - 1])
        }
    }
}

/// A topic as announced, with what the bus knows of it at the time.
pub open spec fn with_runtime(t: TopicV, runtime: Seq<TopicV>) -> TopicV {
    match last_named(runtime, t.name, runtime.len() as int) {
        Some(i) => TopicV {
            name: t.name,
            subscribers: joined(
                t.subscribers,
                runtime[i].subscribers,
                runtime[i].subscribers.len() as int,
            ),
            publishers: joined(
                t.publishers,
                runtime[i].publishers,
                runtime[i].publishers.len() as int,
            ),
        },
        None => t,
    }
}

/// The topics, of the first `n` that the bus knows, that nobody announced; where a name
/// occurs twice, its last occurrence.
pub open spec fn unannounced(announced: Seq<TopicV>, runtime: Seq<TopicV>, n: int) -> Seq<TopicV>
    decreases n,
{
    if n <= 0 {
        Seq::empty()
    } else {
        let before = unannounced(announced, runtime, n - 1);
        let t = runtime[n - 1];
        if last_named(announced, t.name, announced.len() as int) is None && last_named(
            runtime,
            t.name,
            runtime.len() as int,
        ) == Some(n - 1) {
            before.push(t)
        } else {
            before
        }
    }
}

/// A topic's name.
pub open spec fn topic_name() -> spec_fn(TopicV) -> Seq<char> {
    |t: TopicV| t.name
}

/// All topics, before they are put in order.
pub open spec fn all_topics(announced: Seq<TopicV>, runtime: Seq<TopicV>) -> Seq<TopicV> {
    announced.map_values(|t: TopicV| with_runtime(t, runtime)) + unannounced(
        announced,
        runtime,
        runtime.len() as int,
    )
}

/// All topics by name.
pub open spec fn listed_topics(announced: Seq<TopicV>, runtime: Seq<TopicV>) -> Seq<TopicV> {
    let all = all_topics(announced, runtime);
    sorted_by(all, topic_name(), all.len() as int)
}

fn find_last(v: &Vec<TopicAnnouncement>, name: &str) -> (r: Option<usize>)
    ensures
        match r {
            Some(i) => i < v@.len() && last_named(topics(v@), name@, v@.len() as int) == Some(
                i as int,
            ),
            None => last_named(topics(v@), name@, v@.len() as int) is None,
        },
{
    let mut n: usize = v.len();
    while n > 0
        invariant
            n <= v@.len(),
            last_named(topics(v@), name@, v@.len() as int) == last_named(
                topics(v@),
                name@,
                n as int,
            ),
        decreases n,
    {
        assert(topics(v@)[n - 1].name == v@[n - 1].name@);
        if same(v[n - 1].name.as_str(), name) {
            return Some(n - 1);
        }
        n = n - 1;
    }
    None
}

fn join_names(s: &Vec<String>, other: &Vec<String>) -> (r: Vec<String>)
    ensures
        texts(r@) == joined(texts(s@), texts(other@), other@.len() as int),
{
    let mut out = clone_strings(s.as_slice());
    let mut n: usize = 0;
    while n < other.len()
        invariant
            n <= other@.len(),
            texts(out@) == joined(texts(s@), texts(other@), n as int),
        decreases other.len() - n,
    {
        let ghost before = texts(out@);
        assert(texts(other@)[n as int] == other@[n as int]@);
        match position(&out, other[n].as_str()) {
            Some(i) => {
                assert(before[i as int] == other@[n as int]@);
                assert(before.contains(other@[n as int]@));
            },
            None => {
                assert(!before.contains(other@[n as int]@));
                out.push(other[n].clone());
                assert(texts(out@) =~= before.push(other@[n as int]@));
            },
        }
        n = n + 1;
    }
    out
}

/// Puts a topic behind those that do not come after it.
fn insert_topic(out: &mut Vec<TopicInfoResponse>, t: TopicInfoResponse)
    ensures
        topic_infos(final(out)@) == topic_infos(old(out)@).insert(
            place(topic_infos(old(out)@), t@.name, topic_name(), 0),
            t@,
        ),
{
    let ghost before = topic_infos(out@);
    let mut i: usize = 0;
    while i < out.len() && not_after(out[i].name.as_str(), t.name.as_str())
        invariant
            i <= out@.len(),
            before == topic_infos(out@),
            place(before, t@.name, topic_name(), 0) == place(before, t@.name, topic_name(), i as int),
        decreases out.len() - i,
    {
        assert(before[i as int].name == out@[i as int].name@);
        i = i + 1;
    }
    proof {
        if i < out@.len() {
            assert(before[i as int].name == out@[i as int].name@);
        }
    }
    out.insert(i, t);
    assert(topic_infos(out@) =~= before.insert(i as int, t@));
}

/// All topics by name: those announced, with what the bus knows of them at the time, and
/// those that only the bus knows.
pub fn list_topics(announced: &Vec<TopicAnnouncement>, runtime: &Vec<TopicAnnouncement>) -> (r: Vec<
    TopicInfoResponse,
>)
    ensures
        topic_infos(r@) == listed_topics(topics(announced@), topics(runtime@)),
{
    let ghost av = topics(announced@);
    let ghost rv = topics(runtime@);
    let ghost all = all_topics(av, rv);
    let mut out: Vec<TopicInfoResponse> = Vec::new();
    assert(topic_infos(out@) =~= Seq::empty());
    let mut n: usize = 0;
    while n < announced.len()
        invariant
            n <= announced@.len(),
            av == topics(announced@),
            rv == topics(runtime@),
            all == all_topics(av, rv),
            topic_infos(out@) == sorted_by(all, topic_name(), n as int),
        decreases announced.len() - n,
    {
        let t = &announced[n];
        assert(av[n as int] == t@);
        assert(all[n as int] == with_runtime(t@, rv));
        let (subs, pubs) = match find_last(runtime, t.name.as_str()) {
            Some(i) => {
                assert(rv[i as int] == runtime@[i as int]@);
                (
                    join_names(&t.subscribers, &runtime[i].subscribers),
                    join_names(&t.publishers, &runtime[i].publishers),
                )
            },
            None => (
                clone_strings(t.subscribers.as_slice()),
                clone_strings(t.publishers.as_slice()),
            ),
        };
        insert_topic(
            &mut out,
            TopicInfoResponse { name: t.name.clone(), subscribers: subs, publishers: pubs },
        );
        n = n + 1;
    }
    let ghost base = av.len() as int;
    let mut m: usize = 0;
    while m < runtime.len()
        invariant
            m <= runtime@.len(),
            base == av.len(),
            av == topics(announced@),
            rv == topics(runtime@),
            all == all_topics(av, rv),
            topic_infos(out@) == sorted_by(
                all,
                topic_name(),
                base + unannounced(av, rv, m as int).len(),
            ),
        decreases runtime.len() - m,
    {
        let t = &runtime[m];
        assert(rv[m as int] == t@);
        let known = find_last(announced, t.name.as_str()).is_some();
        let last = match find_last(runtime, t.name.as_str()) {
            Some(i) => i == m,
            None => false,
        };
        if !known && last {
            let ghost before = unannounced(av, rv, m as int);
            proof {
                lemma_unannounced_prefix(av, rv, m + 1, rv.len() as int);
                assert(unannounced(av, rv, m + 1) =~= before.push(t@));
                assert(all[base + before.len()] == t@);
            }
            insert_topic(
                &mut out,
                TopicInfoResponse {
                    name: t.name.clone(),
                    subscribers: clone_strings(t.subscribers.as_slice()),
                    publishers: clone_strings(t.publishers.as_slice()),
                },
            );
        }
        m = m + 1;
    }
    out
}

proof fn lemma_unannounced_prefix(av: Seq<TopicV>, rv: Seq<TopicV>, m: int, n: int)
    requires
        0 <= m <= n <= rv.len(),
    ensures
        unannounced(av, rv, m).len() <= unannounced(av, rv, n).len(),
        forall|i: int|
            0 <= i < unannounced(av, rv, m).len() ==> unannounced(av, rv, n)[i] == unannounced(
                av,
                rv,
                m,
            )[i],
    decreases n,
{
    if m < n {
        lemma_unannounced_prefix(av, rv, m, n - 1);
    }
}

/// The last of the first `n` announcements of the actor.
pub open spec fn last_announced(s: Seq<AnnouncementV>, id: Seq<char>, n: int) -> Option<int>
    decreases n,
{
    if n <= 0 {
        None
    } else if s[n - 1].id == id {
        Some(n - 1)
    } else {
        last_announced(s, id, n - 1)
    }
}

/// An actor, by its announcement where it made one.
pub open spec fn actor_info(a: AnnouncementV, announced: Seq<AnnouncementV>) -> ActorInfoV {
    match last_announced(announced, a.id, announced.len() as int) {
        Some(i) => ActorInfoV {
            id: a.id,
            subscriptions: announced[i].subscriptions,
            publications: announced[i].publications,
            announced: true,
        },
        None => ActorInfoV {
            id: a.id,
            subscriptions: a.subscriptions,
            publications: a.publications,
            announced: false,
        },
    }
}

/// The actors on the bus.
pub fn list_actors(actors: &Vec<ActorAnnouncement>, announced: &Vec<ActorAnnouncement>) -> (r: Vec<
    ActorInfoResponse,
>)
    ensures
        actor_infos(r@) == announcements(actors@).map_values(
            |a: AnnouncementV| actor_info(a, announcements(announced@)),
        ),
{
    let ghost bv = announcements(announced@);
    let mut out: Vec<ActorInfoResponse> = Vec::new();
    let mut n: usize = 0;
    while n < actors.len()
        invariant
            n <= actors@.len(),
            bv == announcements(announced@),
            out@.len() == n,
            forall|j: int| 0 <= j < n ==> (#[trigger] out@[j])@ == actor_info(actors@[j]@, bv),
        decreases actors.len() - n,
    {
        let a = &actors[n];
        let mut k: usize = announced.len();
        while k > 0 && !same(announced[k - 1].id.as_str(), a.id.as_str())
            invariant
                k <= announced@.len(),
                bv == announcements(announced@),
                last_announced(bv, a.id@, bv.len() as int) == last_announced(bv, a.id@, k as int),
            decreases k,
        {
            assert(bv[k - 1].id == announced@[k - 1].id@);
            k = k - 1;
        }
        let info = if k > 0 {
            assert(bv[k - 1] == announced@[k - 1]@);
            ActorInfoResponse {
                id: a.id.clone(),
                subscriptions: clone_strings(announced[k - 1].subscriptions.as_slice()),
                publications: clone_strings(announced[k - 1].publications.as_slice()),
                announced: true,
            }
        } else {
            ActorInfoResponse {
                id: a.id.clone(),
                subscriptions: clone_strings(a.subscriptions.as_slice()),
                publications: clone_strings(a.publications.as_slice()),
                announced: false,
            }
        };
        assert(info@ == actor_info(a@, bv));
        out.push(info);
        n = n + 1;
    }
    assert(actor_infos(out@) =~= announcements(actors@).map_values(
        |a: AnnouncementV| actor_info(a, announcements(announced@)),
    ));
    out
}

/// The actors that announced themselves.
pub fn list_announced(announced: &Vec<ActorAnnouncement>) -> (r: Vec<ActorInfoResponse>)
    ensures
        actor_infos(r@) == announcements(announced@).map_values(
            |a: AnnouncementV|
                (ActorInfoV {
                    id: a.id,
                    subscriptions: a.subscriptions,
                    publications: a.publications,
                    announced: true,
                }),
        ),
{
    let mut out: Vec<ActorInfoResponse> = Vec::new();
    let mut n: usize = 0;
    while n < announced.len()
        invariant
            n <= announced@.len(),
            out@.len() == n,
            forall|j: int|
                0 <= j < n ==> (#[trigger] out@[j])@ == (ActorInfoV {
                    id: announced@[j].id@,
                    subscriptions: texts(announced@[j].subscriptions@),
                    publications: texts(announced@[j].publications@),
                    announced: true,
                }),
        decreases announced.len() - n,
    {
        let a = &announced[n];
        out.push(
            ActorInfoResponse {
                id: a.id.clone(),
                subscriptions: clone_strings(a.subscriptions.as_slice()),
                publications: clone_strings(a.publications.as_slice()),
                announced: true,
            },
        );
        n = n + 1;
    }
    assert(actor_infos(out@) =~= announcements(announced@).map_values(
        |a: AnnouncementV|
            (ActorInfoV {
                id: a.id,
                subscriptions: a.subscriptions,
                publications: a.publications,
                announced: true,
            }),
    ));
    out
}

/// The topics that actors announced.
pub fn list_announced_topics(announced: &Vec<TopicAnnouncement>) -> (r: Vec<
    TopicAnnouncementResponse,
>)
    ensures
        topic_announcements(r@) == topics(announced@),
{
    let mut out: Vec<TopicAnnouncementResponse> = Vec::new();
    let mut n: usize = 0;
    while n < announced.len()
        invariant
            n <= announced@.len(),
            out@.len() == n,
            forall|j: int| 0 <= j < n ==> (#[trigger] out@[j])@ == announced@[j]@,
        decreases announced.len() - n,
    {
        let t = &announced[n];
        out.push(
            TopicAnnouncementResponse {
                name: t.name.clone(),
                subscribers: clone_strings(t.subscribers.as_slice()),
                publishers: clone_strings(t.publishers.as_slice()),
            },
        );
        n = n + 1;
    }
    assert(topic_announcements(out@) =~= topics(announced@));
    out
}

impl PublishRequest {
    /// The message to publish.
    pub fn to_message(&self) -> (r: Message)
        ensures
            r@ == MessageV::new(self.topic@, self.source@, self.payload@),
    {
        Message::new(self.topic.as_str(), self.source.as_str(), self.payload.clone())
    }

    /// The answer, by whether the message could be published.
    pub fn answer(&self, published: Result<(), &str>) -> (r: Result<PublishResponse, ErrorResponse>)
        ensures
            match published {
                Ok(_) => r matches Ok(p) && p.success && p.topic@ == self.topic@,
                Err(e) => r matches Err(x) && x.error@ == e@,
            },
    {
        match published {
            Ok(_) => Ok(PublishResponse { success: true, topic: self.topic.clone() }),
            Err(e) => Err(ErrorResponse { error: owned(e) }),
        }
    }
}

/// What the server announces of itself.
pub fn server_announcement() -> (r: ActorAnnouncement)
    ensures
        r@ == (AnnouncementV {
            id: "gladiator-server"@,
            subscriptions: Seq::empty(),
            publications: seq!["server"@],
        }),
{
    let subs: Vec<String> = Vec::new();
    assert(texts(subs@) =~= Seq::empty());
    let mut pubs: Vec<String> = Vec::new();
    assert(texts(pubs@) =~= Seq::empty());
    push_topic(&mut pubs, "server");
    assert(texts(pubs@) =~= seq!["server"@]);
    ActorAnnouncement { id: owned("gladiator-server"), subscriptions: subs, publications: pubs }
}

/// Every topic is listed, in the order of names: the list is as long as the topics are many,
/// and its names do not go down.
pub proof fn lemma_every_topic_is_listed(announced: Seq<TopicV>, runtime: Seq<TopicV>)
    ensures
        crate::sorting::in_order(listed_topics(announced, runtime), topic_name()),
        listed_topics(announced, runtime).to_multiset() == all_topics(
            announced,
            runtime,
        ).to_multiset(),
{
    let all = all_topics(announced, runtime);
    crate::sorting::lemma_sorted_by(all, topic_name(), all.len() as int);
    assert(all.take(all.len() as int) =~= all);
}

} // verus!
