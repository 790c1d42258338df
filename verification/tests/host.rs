use coerce_remote::actor::{
    Actor, ActorCreationErr, ActorFactory, ActorRecipe, HandlerOutcome,
};
use coerce_remote::handler::{Completion, HandlerFault};
use coerce_remote::host::{
    entity_reply, insert_shard, EntityRequest, EntityRequestError, ShardHost,
};
use coerce_remote::registry::{HandlerEntry, HandlerRegistry};
use coerce_remote::shard::shard_for;
use std::cell::Cell;
use std::rc::Rc;

/// Counts the messages it gets and answers with the count and its label.
struct Counter {
    label: u8,
    received: u8,
}

impl Actor for Counter {
    fn receive(&mut self, message_type: &str, payload: &[u8]) -> HandlerOutcome {
        match message_type {
            "Count" => {
                self.received += 1;
                HandlerOutcome::Replied(vec![self.label, self.received])
            }
            "Echo" => HandlerOutcome::Replied(payload.to_vec()),
            "Silent" => HandlerOutcome::SendFailed,
            _ => HandlerOutcome::Undecodable,
        }
    }
}

struct Label(u8);

impl ActorRecipe for Label {
    fn read_from_bytes(bytes: Vec<u8>) -> Option<Self> {
        match bytes.as_slice() {
            [label] => Some(Label(*label)),
            _ => None,
        }
    }

    fn write_to_bytes(&self) -> Option<Vec<u8>> {
        Some(vec![self.0])
    }
}

/// Makes counters, refuses the label 13, and counts how often it is asked.
struct CounterFactory {
    asked: Rc<Cell<usize>>,
}

impl ActorFactory for CounterFactory {
    type Actor = Counter;
    type Recipe = Label;

    fn create(&self, recipe: Label) -> Result<Counter, ActorCreationErr> {
        self.asked.set(self.asked.get() + 1);
        if recipe.0 == 13 {
            Err(ActorCreationErr::Failed)
        } else {
            Ok(Counter { label: recipe.0, received: 0 })
        }
    }
}

fn counter_host() -> (ShardHost<CounterFactory>, Rc<Cell<usize>>) {
    let asked = Rc::new(Cell::new(0));
    let host = ShardHost::new("Counter".to_string(), CounterFactory { asked: asked.clone() }, 1000);
    (host, asked)
}

fn handlers() -> HandlerRegistry {
    let mut registry = HandlerRegistry::new();
    registry.register(HandlerEntry::new("count", "Counter", "Count"));
    registry.register(HandlerEntry::new("echo", "Counter", "Echo"));
    registry.register(HandlerEntry::new("silent", "Counter", "Silent"));
    registry.register(HandlerEntry::new("odd", "Counter", "Odd"));
    registry.register(HandlerEntry::new("foreign", "Other", "Count"));
    registry
}

fn request(actor_id: &str, message_type: &str, message: &[u8], recipe: Option<&[u8]>) -> EntityRequest {
    EntityRequest {
        actor_id: actor_id.to_string(),
        message_type: message_type.to_string(),
        message: message.to_vec(),
        recipe: recipe.map(|r| r.to_vec()),
    }
}

#[test]
fn new_host_is_empty() {
    let (host, asked) = counter_host();
    assert_eq!(host.shard_entity(), "Counter");
    assert_eq!(host.shard_count(), 1000);
    assert_eq!(host.entity_count(), 0);
    assert_eq!(host.find_entity("leon"), None);
    assert_eq!(host.get_stats().hosted_shards, Vec::<u32>::new());
    assert_eq!(asked.get(), 0);
}

#[test]
fn entity_is_constructed_on_first_request_only() {
    let (mut host, asked) = counter_host();
    let handlers = handlers();
    let first = host.entity_request(&handlers, request("leon", "count", &[], Some(&[7])));
    assert_eq!(first, Ok(vec![7, 1]));
    assert_eq!(asked.get(), 1);
    assert_eq!(host.entity_count(), 1);
    assert_eq!(host.find_entity("leon"), Some(0));

    // The second request finds the entity: the factory is not asked, the
    // recipe is not read, and the same actor answers.
    let second = host.entity_request(&handlers, request("leon", "count", &[], Some(&[9])));
    assert_eq!(second, Ok(vec![7, 2]));
    let third = host.entity_request(&handlers, request("leon", "count", &[], None));
    assert_eq!(third, Ok(vec![7, 3]));
    assert_eq!(asked.get(), 1);
    assert_eq!(host.entity_count(), 1);
    assert_eq!(host.find_entity("leon"), Some(0));
}

#[test]
fn entities_do_not_share_state() {
    let (mut host, asked) = counter_host();
    let handlers = handlers();
    assert_eq!(host.entity_request(&handlers, request("a", "count", &[], Some(&[1]))), Ok(vec![1, 1]));
    assert_eq!(host.entity_request(&handlers, request("b", "count", &[], Some(&[2]))), Ok(vec![2, 1]));
    assert_eq!(host.entity_request(&handlers, request("a", "count", &[], None)), Ok(vec![1, 2]));
    assert_eq!(host.entity_request(&handlers, request("b", "count", &[], None)), Ok(vec![2, 2]));
    assert_eq!(host.entity_request(&handlers, request("b", "echo", &[5, 6], None)), Ok(vec![5, 6]));
    assert_eq!(asked.get(), 2);
    assert_eq!(host.find_entity("a"), Some(0));
    assert_eq!(host.find_entity("b"), Some(1));
}

#[test]
fn stats_list_the_shards_of_the_entities_in_ascending_order() {
    let (mut host, _) = counter_host();
    let handlers = handlers();
    for id in ["entity-2", "leon", "entity-1", "a", "leon"] {
        host.entity_request(&handlers, request(id, "count", &[], Some(&[1]))).expect("a reply");
    }
    assert_eq!(shard_for("leon", 1000), 40);
    assert_eq!(host.get_stats().hosted_shards, vec![40, 97, 503, 504]);
    host.start_shard(97);
    host.start_shard(1);
    host.start_shard(999);
    assert_eq!(host.get_stats().hosted_shards, vec![1, 40, 97, 503, 504, 999]);
}

#[test]
fn creation_failure_is_handed_to_the_caller() {
    let (mut host, asked) = counter_host();
    let handlers = handlers();
    let refused = host.entity_request(&handlers, request("leon", "count", &[], Some(&[13])));
    assert_eq!(refused, Err(EntityRequestError::CreationFailed(ActorCreationErr::Failed)));
    assert_eq!(asked.get(), 1);
    assert_eq!(host.entity_count(), 0);
    assert_eq!(host.get_stats().hosted_shards, Vec::<u32>::new());
    // It is not tried again by the host, but the next request may succeed.
    let made = host.entity_request(&handlers, request("leon", "count", &[], Some(&[4])));
    assert_eq!(made, Ok(vec![4, 1]));
    assert_eq!(asked.get(), 2);
}

#[test]
fn request_without_usable_recipe_does_not_reach_the_factory() {
    let (mut host, asked) = counter_host();
    let handlers = handlers();
    let missing = host.entity_request(&handlers, request("leon", "count", &[], None));
    assert_eq!(missing, Err(EntityRequestError::CreationFailed(ActorCreationErr::InvalidRecipe)));
    let unreadable = host.entity_request(&handlers, request("leon", "count", &[], Some(&[1, 2])));
    assert_eq!(unreadable, Err(EntityRequestError::CreationFailed(ActorCreationErr::InvalidRecipe)));
    assert_eq!(asked.get(), 0);
    assert_eq!(host.entity_count(), 0);
}

#[test]
fn request_without_handler_is_actor_unavailable() {
    let (mut host, asked) = counter_host();
    let handlers = handlers();
    let unknown = host.entity_request(&handlers, request("leon", "unknown", &[], Some(&[1])));
    assert_eq!(unknown, Err(EntityRequestError::ActorUnavailable));
    let foreign = host.entity_request(&handlers, request("leon", "foreign", &[], Some(&[1])));
    assert_eq!(foreign, Err(EntityRequestError::ActorUnavailable));
    // The entity was constructed by the first of the two all the same.
    assert_eq!(asked.get(), 1);
    assert_eq!(host.entity_count(), 1);
    assert_eq!(host.entity_request(&handlers, request("leon", "count", &[], None)), Ok(vec![1, 1]));
}

#[test]
fn entity_that_delivers_nothing_is_actor_unavailable() {
    let (mut host, _) = counter_host();
    let handlers = handlers();
    let silent = host.entity_request(&handlers, request("leon", "silent", &[], Some(&[1])));
    assert_eq!(silent, Err(EntityRequestError::ActorUnavailable));
    let odd = host.entity_request(&handlers, request("leon", "odd", &[], None));
    assert_eq!(odd, Err(EntityRequestError::ActorUnavailable));
}

#[test]
fn start_entity_is_lazy_creation_alone() {
    let (mut host, asked) = counter_host();
    assert_eq!(host.start_entity("leon", Some(vec![3])), Ok(0));
    assert_eq!(host.start_entity("leon", Some(vec![3])), Ok(0));
    assert_eq!(host.start_entity("other", Some(vec![4])), Ok(1));
    assert_eq!(host.start_entity("other", None), Ok(1));
    assert_eq!(host.start_entity("third", None), Err(ActorCreationErr::InvalidRecipe));
    assert_eq!(host.start_entity("third", Some(vec![13])), Err(ActorCreationErr::Failed));
    assert_eq!(asked.get(), 3);
    assert_eq!(host.entity_count(), 2);
    assert_eq!(host.get_stats().hosted_shards.len(), 2);
}

#[test]
fn stopped_entity_is_constructed_anew() {
    let (mut host, asked) = counter_host();
    let handlers = handlers();
    for (id, label) in [("a", 1u8), ("b", 2), ("c", 3)] {
        host.entity_request(&handlers, request(id, "count", &[], Some(&[label]))).expect("a reply");
    }
    let stopped = host.stop_entity("b").expect("the entity was there");
    assert_eq!((stopped.label, stopped.received), (2, 1));
    assert!(host.stop_entity("b").is_none());
    assert_eq!(host.entity_count(), 2);
    assert_eq!(host.find_entity("a"), Some(0));
    assert_eq!(host.find_entity("b"), None);
    assert_eq!(host.find_entity("c"), Some(1));
    assert_eq!(host.entity_request(&handlers, request("c", "count", &[], None)), Ok(vec![3, 2]));
    assert_eq!(host.entity_request(&handlers, request("b", "count", &[], Some(&[9]))), Ok(vec![9, 1]));
    assert_eq!(asked.get(), 4);
    assert_eq!(host.find_entity("b"), Some(2));
}

#[test]
fn admit_entity_takes_in_what_the_factory_made() {
    let (mut host, asked) = counter_host();
    assert_eq!(host.admit_entity("a", Err(ActorCreationErr::Failed)), Err(ActorCreationErr::Failed));
    assert_eq!(host.entity_count(), 0);
    assert_eq!(host.admit_entity("a", Ok(Counter { label: 1, received: 0 })), Ok(0));
    assert_eq!(host.admit_entity("b", Ok(Counter { label: 2, received: 0 })), Ok(1));
    // An entity that exists is not replaced.
    assert_eq!(host.admit_entity("a", Ok(Counter { label: 3, received: 0 })), Ok(0));
    assert_eq!(host.entity_count(), 2);
    assert_eq!(host.entity_request(&handlers(), request("a", "count", &[], None)), Ok(vec![1, 1]));
    assert_eq!(host.get_stats().hosted_shards, vec![97, 98]);
    assert_eq!(asked.get(), 0);
}

#[test]
fn insert_shard_keeps_the_order() {
    let mut shards: Vec<u32> = vec![];
    for shard in [5u32, 1, 9, 5, 0, u32::MAX, 1, 7] {
        insert_shard(&mut shards, shard);
    }
    assert_eq!(shards, vec![0, 1, 5, 7, 9, u32::MAX]);
}

#[test]
fn entity_reply_knows_one_error_of_delivery() {
    assert_eq!(entity_reply(Completion::Delivered(vec![1])), Ok(vec![1]));
    assert_eq!(entity_reply(Completion::Dropped), Err(EntityRequestError::ActorUnavailable));
    assert_eq!(
        entity_reply(Completion::Faulted(HandlerFault::Unencodable)),
        Err(EntityRequestError::ActorUnavailable)
    );
}
