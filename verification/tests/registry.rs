use coerce_remote::registry::{HandlerEntry, HandlerRegistry};

fn tags(entry: &HandlerEntry) -> (&str, &str) {
    (entry.actor_type.as_str(), entry.message_type.as_str())
}

#[test]
fn empty_registry_knows_nothing() {
    let registry = HandlerRegistry::new();
    assert_eq!(registry.len(), 0);
    assert!(registry.lookup_by_id("Ping").is_none());
    assert_eq!(registry.lookup_by_types("Echo", "PingMessage"), None);
}

#[test]
fn register_maps_both_ways() {
    let mut registry = HandlerRegistry::new();
    registry.register(HandlerEntry::new("Ping", "Echo", "PingMessage"));
    registry.register(HandlerEntry::new("Stop", "Echo", "StopMessage"));
    assert_eq!(registry.len(), 2);
    let ping = registry.lookup_by_id("Ping").expect("registered");
    assert_eq!(ping.id, "Ping");
    assert_eq!(tags(ping), ("Echo", "PingMessage"));
    let stop = registry.lookup_by_id("Stop").expect("registered");
    assert_eq!(tags(stop), ("Echo", "StopMessage"));
    assert_eq!(registry.lookup_by_types("Echo", "PingMessage"), Some("Ping".to_string()));
    assert_eq!(registry.lookup_by_types("Echo", "StopMessage"), Some("Stop".to_string()));
    assert_eq!(registry.lookup_by_types("Other", "PingMessage"), None);
    assert_eq!(registry.lookup_by_types("Echo", "Other"), None);
    assert!(registry.lookup_by_id("ping").is_none());
}

#[test]
fn duplicate_identifier_overwrites() {
    let mut registry = HandlerRegistry::new();
    registry.register(HandlerEntry::new("x", "Echo", "First"));
    registry.register(HandlerEntry::new("y", "Echo", "Other"));
    registry.register(HandlerEntry::new("x", "Echo", "Second"));
    assert_eq!(registry.len(), 2);
    assert_eq!(tags(registry.lookup_by_id("x").expect("registered")), ("Echo", "Second"));
    assert_eq!(tags(registry.lookup_by_id("y").expect("registered")), ("Echo", "Other"));
    assert_eq!(registry.lookup_by_types("Echo", "First"), None);
    assert_eq!(registry.lookup_by_types("Echo", "Second"), Some("x".to_string()));
    assert_eq!(registry.lookup_by_types("Echo", "Other"), Some("y".to_string()));
}

#[test]
fn pair_registered_twice_maps_to_the_latest_identifier() {
    let mut registry = HandlerRegistry::new();
    registry.register(HandlerEntry::new("first", "Echo", "PingMessage"));
    registry.register(HandlerEntry::new("second", "Echo", "PingMessage"));
    assert_eq!(registry.lookup_by_types("Echo", "PingMessage"), Some("second".to_string()));
    assert_eq!(tags(registry.lookup_by_id("first").expect("registered")), ("Echo", "PingMessage"));
    // Once the latest identifier names another pair, the earlier one is the
    // identifier of the pair again.
    registry.register(HandlerEntry::new("second", "Echo", "StopMessage"));
    assert_eq!(registry.lookup_by_types("Echo", "PingMessage"), Some("first".to_string()));
    assert_eq!(registry.lookup_by_types("Echo", "StopMessage"), Some("second".to_string()));
}

#[test]
fn identifier_of_a_pair_names_a_handler_of_that_pair() {
    let mut registry = HandlerRegistry::new();
    let pairs = [("a", "A", "M1"), ("b", "A", "M2"), ("c", "B", "M1"), ("a", "B", "M2")];
    for (id, actor_type, message_type) in pairs {
        registry.register(HandlerEntry::new(id, actor_type, message_type));
    }
    for (_, actor_type, message_type) in pairs {
        if let Some(id) = registry.lookup_by_types(actor_type, message_type) {
            let entry = registry.lookup_by_id(&id).expect("the identifier is registered");
            assert_eq!(tags(entry), (actor_type, message_type));
        }
    }
    assert_eq!(registry.lookup_by_types("A", "M1"), None);
    assert_eq!(registry.lookup_by_types("B", "M2"), Some("a".to_string()));
}
