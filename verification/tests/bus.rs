use gladiator::actor::{Actor, ActorAnnouncement, ActorId};
use gladiator::bus::{BusError, BusRegistry};
use gladiator::json::Json;
use gladiator::server::{
    health, list_actors, list_announced, list_announced_topics, list_topics, server_announcement,
    PublishRequest,
};

fn announcement(id: &str, subscriptions: &[&str], publications: &[&str]) -> ActorAnnouncement {
    ActorAnnouncement {
        id: id.to_string(),
        subscriptions: subscriptions.iter().map(|s| s.to_string()).collect(),
        publications: publications.iter().map(|s| s.to_string()).collect(),
    }
}

#[test]
fn bus_create_and_list_topics() {
    let mut bus = BusRegistry::new();
    assert!(bus.create_topic("test:topic"));
    assert!(!bus.create_topic("test:topic"));
    let topics = bus.list_topics();
    assert!(topics.contains(&"test:topic".to_string()));
    assert_eq!(topics.len(), 1);
}

#[test]
fn bus_unannounced_actor_cannot_publish() {
    let mut bus = BusRegistry::new();
    bus.create_topic("test:restricted");
    let result = bus.may_publish("unknown", "test:restricted");
    assert!(matches!(&result, Err(BusError::NotAnnounced(id)) if id == "unknown"));
    assert_eq!(result.unwrap_err().message(), "Actor not announced: unknown");
}

#[test]
fn bus_announced_actor_may_publish() {
    let mut bus = BusRegistry::new();
    bus.create_topic("test:pubsub");
    bus.register_announcement(announcement("publisher", &[], &["test:pubsub"]));
    assert!(bus.may_publish("publisher", "test:pubsub").is_ok());
    let missing = bus.may_publish("publisher", "nowhere").unwrap_err();
    assert_eq!(missing.message(), "Topic not found: nowhere");
}

#[test]
fn bus_list_actors() {
    let mut bus = BusRegistry::new();
    bus.register_announcement(announcement("actor-a", &["topic:1"], &["topic:2"]));
    bus.register_announcement(announcement("actor-b", &["topic:2"], &["topic:1"]));

    let actors = bus.list_announced_actors();
    assert_eq!(actors.len(), 2);
    let names: Vec<_> = actors.iter().map(|a| a.id.clone()).collect();
    assert!(names.contains(&"actor-a".to_string()));
    assert!(names.contains(&"actor-b".to_string()));
}

#[test]
fn bus_announcing_again_replaces() {
    let mut bus = BusRegistry::new();
    bus.register_announcement(announcement("a", &["x"], &[]));
    bus.register_announcement(announcement("b", &["x"], &["y"]));
    bus.register_announcement(announcement("a", &["y"], &[]));
    assert_eq!(bus.list_announced_actors().len(), 2);
    assert_eq!(bus.list_announced_actors()[0].subscriptions, vec!["y".to_string()]);
    let topics = bus.list_announced_topics();
    assert_eq!(topics.len(), 2);
    let y = topics.iter().find(|t| t.name == "y").unwrap();
    assert_eq!(y.subscribers, vec!["a".to_string()]);
    assert_eq!(y.publishers, vec!["b".to_string()]);
    let x = topics.iter().find(|t| t.name == "x").unwrap();
    assert_eq!(x.subscribers, vec!["b".to_string()]);
    assert!(x.publishers.is_empty());
}

struct EchoActor;

impl Actor for EchoActor {
    fn id(&self) -> ActorId {
        "echo-actor".to_string()
    }

    fn announce(&self) -> ActorAnnouncement {
        announcement("echo-actor", &["echo:in"], &["echo:out"])
    }
}

struct SilentActor;

impl Actor for SilentActor {
    fn id(&self) -> ActorId {
        "silent".to_string()
    }
}

#[test]
fn actor_announce() {
    let ann = EchoActor.announce();
    assert_eq!(ann.id, "echo-actor");
    assert!(ann.subscriptions.contains(&"echo:in".to_string()));
    assert!(ann.publications.contains(&"echo:out".to_string()));
}

#[test]
fn actor_announces_nothing_by_itself() {
    let ann = SilentActor.announce();
    assert_eq!(ann.id, "silent");
    assert!(ann.subscriptions.is_empty());
    assert!(ann.publications.is_empty());
}

#[test]
fn test_health_endpoint() {
    assert_eq!(health(), "ok");
}

#[test]
fn test_list_topics_multiple() {
    let mut bus = BusRegistry::new();
    bus.register_announcement(announcement("a", &["beta"], &["alpha"]));
    bus.register_announcement(announcement("b", &["gamma"], &["test:topic"]));
    let listed = list_topics(&bus.list_announced_topics(), &Vec::new());
    let names: Vec<String> = listed.iter().map(|t| t.name.clone()).collect();
    assert_eq!(names, vec!["alpha", "beta", "gamma", "test:topic"]);
}

#[test]
fn test_publish_endpoint_success() {
    let request = PublishRequest {
        topic: "test:topic".to_string(),
        source: "test-source".to_string(),
        payload: Json::text("test message"),
    };
    let message = request.to_message();
    assert_eq!(message.topic, "test:topic");
    assert_eq!(message.payload, Json::text("test message"));
    let answer = request.answer(Ok(())).unwrap();
    assert!(answer.success);
    assert_eq!(answer.topic, "test:topic");
    let refused = request.answer(Err("Actor not announced: x")).unwrap_err();
    assert_eq!(refused.error, "Actor not announced: x");
}

#[test]
fn test_list_actors_endpoint() {
    let announced = vec![announcement("test-actor", &["test:topic"], &["output"])];
    let running = vec![
        announcement("test-actor", &["test:topic"], &[]),
        announcement("other", &[], &[]),
    ];
    let listed = list_actors(&running, &announced);
    assert_eq!(listed.len(), 2);
    assert_eq!(listed[0].id, "test-actor");
    assert!(listed[0].announced);
    assert!(!listed[1].announced);
}

#[test]
fn test_list_announced_endpoint() {
    let mut bus = BusRegistry::new();
    bus.register_announcement(server_announcement());
    bus.register_announcement(announcement("llm-actor-1", &["user-input"], &["llm-stream"]));
    let listed = list_announced(bus.list_announced_actors());
    assert!(listed.len() >= 2);
    let ids: Vec<String> = listed.iter().map(|a| a.id.clone()).collect();
    assert!(ids.contains(&"llm-actor-1".to_string()));
    assert!(ids.contains(&"gladiator-server".to_string()));
    assert_eq!(list_announced_topics(&bus.list_announced_topics()).len(), 3);
}
