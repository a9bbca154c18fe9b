//! Actors and what they announce to the bus.

use crate::text::{clone_strings, owned, texts};
use vstd::prelude::*;

verus! {

pub type ActorId = String;

/// What an actor says of itself: whom it listens to, and where it speaks.
#[derive(Debug)]
pub struct ActorAnnouncement {
    pub id: ActorId,
    pub subscriptions: Vec<String>,
    pub publications: Vec<String>,
}

/// The model of an [`ActorAnnouncement`].
pub struct AnnouncementV {
    pub id: Seq<char>,
    pub subscriptions: Seq<Seq<char>>,
    pub publications: Seq<Seq<char>>,
}

impl View for ActorAnnouncement {
    type V = AnnouncementV;

    open spec fn view(&self) -> AnnouncementV {
        AnnouncementV {
            id: self.id@,
            subscriptions: texts(self.subscriptions@),
            publications: texts(self.publications@),
        }
    }
}

impl Clone for ActorAnnouncement {
    fn clone(&self) -> (r: ActorAnnouncement)
        ensures
            r@ == self@,
    {
        ActorAnnouncement {
            id: self.id.clone(),
            subscriptions: clone_strings(self.subscriptions.as_slice()),
            publications: clone_strings(self.publications.as_slice()),
        }
    }
}

/// A topic, with those who listen to it and those who speak on it.
#[derive(Debug)]
pub struct TopicAnnouncement {
    pub name: String,
    pub subscribers: Vec<ActorId>,
    pub publishers: Vec<ActorId>,
}

/// An actor on the bus.
pub trait Actor: Sized {
    fn id(&self) -> (r: ActorId);

    /// What the actor announces: by itself no topic.
    fn announce(&self) -> (r: ActorAnnouncement)
        default_ensures
            call_ensures(Self::id, (self,), r.id) && r.subscriptions@.len() == 0
                && r.publications@.len() == 0,
    {
        ActorAnnouncement { id: self.id(), subscriptions: Vec::new(), publications: Vec::new() }
    }
}

/// Appends an owned copy of a topic to `v`.
pub(crate) fn push_topic(v: &mut Vec<String>, topic: &str)
    ensures
        texts(final(v)@) == texts(old(v)@).push(topic@),
{
    let ghost before = v@;
    v.push(owned(topic));
    assert(texts(v@) =~= texts(before).push(topic@));
}

} // verus!
