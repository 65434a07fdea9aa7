use event_sync::event::Event;
use event_sync::order::id_precedes;
use event_sync::store::{get_events_since, insert_event, EventStore};
use event_sync::sync::{check_envelope, check_envelope_with, fetch_since, submit, EnvelopeError, SinceQuery};

fn event(id: &str, entity_id: &str, timestamp: i64, device_id: &str) -> Event {
    Event {
        id: id.to_string(),
        entity_id: entity_id.to_string(),
        entity_type: "task".to_string(),
        event_type: "completed".to_string(),
        payload: "{}".to_string(),
        timestamp,
        device_id: device_id.to_string(),
    }
}

fn ids(events: &[Event]) -> Vec<String> {
    events.iter().map(|e| e.id.clone()).collect()
}

fn same(a: &Event, b: &Event) -> bool {
    a.id == b.id
        && a.entity_id == b.entity_id
        && a.entity_type == b.entity_type
        && a.event_type == b.event_type
        && a.payload == b.payload
        && a.timestamp == b.timestamp
        && a.device_id == b.device_id
}

#[test]
fn duplicate_push_is_success_and_stored_once() {
    let mut store = EventStore::new();
    let e1 = event("e1", "t1", 1000, "d1");
    assert_eq!(submit(&mut store, e1.clone()), Ok(()));
    assert_eq!(submit(&mut store, e1.clone()), Ok(()));
    assert_eq!(store.len(), 1);
    assert_eq!(ids(&fetch_since(&store, &SinceQuery { since: 999 })), vec!["e1".to_string()]);
    assert!(fetch_since(&store, &SinceQuery { since: 1000 }).is_empty());
}

#[test]
fn equal_timestamps_from_two_devices_come_back_by_id() {
    let mut store = EventStore::new();
    assert_eq!(submit(&mut store, event("e2", "t2", 1000, "d2")), Ok(()));
    assert_eq!(submit(&mut store, event("e1", "t1", 1000, "d1")), Ok(()));
    let pulled = fetch_since(&store, &SinceQuery { since: 999 });
    assert_eq!(ids(&pulled), vec!["e1".to_string(), "e2".to_string()]);
}

#[test]
fn empty_store_pull_is_empty() {
    let store = EventStore::new();
    assert!(fetch_since(&store, &SinceQuery { since: 0 }).is_empty());
}

#[test]
fn second_insert_of_an_id_changes_nothing() {
    let mut store = EventStore::new();
    assert!(store.insert(event("a", "x", 5, "d")));
    let before = ids(&store.query_after(i64::MIN));
    let mut other = event("a", "y", 7, "d");
    other.payload = "[1]".to_string();
    assert!(!store.insert(other));
    assert!(!store.insert(event("a", "x", 5, "d")));
    assert_eq!(ids(&store.query_after(i64::MIN)), before);
    let pulled = store.query_after(0);
    assert_eq!(pulled.len(), 1);
    assert!(same(&pulled[0], &event("a", "x", 5, "d")));
}

#[test]
fn pull_between_two_timestamps_sees_only_the_later() {
    let mut store = EventStore::new();
    store.insert(event("a", "x", 10, "d1"));
    store.insert(event("b", "x", 20, "d2"));
    for t in [10, 15, 19] {
        assert_eq!(ids(&store.query_after(t)), vec!["b".to_string()]);
    }
    assert_eq!(ids(&store.query_after(9)), vec!["a".to_string(), "b".to_string()]);
    assert!(store.query_after(20).is_empty());
}

#[test]
fn repeated_pulls_agree() {
    let mut store = EventStore::new();
    for (id, ts) in [("c", 3), ("a", 3), ("b", 1), ("d", 2), ("e", 3)] {
        store.insert(event(id, "x", ts, "d"));
    }
    let first = ids(&store.query_after(0));
    let second = ids(&store.query_after(0));
    assert_eq!(first, second);
    assert_eq!(first, vec!["b", "d", "a", "c", "e"]);
}

#[test]
fn ties_are_ordered_by_id_bytes() {
    let mut store = EventStore::new();
    store.insert(event("ab", "x", 4, "d"));
    store.insert(event("b", "x", 4, "d"));
    store.insert(event("a", "x", 4, "d"));
    store.insert(event("B", "x", 4, "d"));
    assert_eq!(ids(&store.query_after(3)), vec!["B", "a", "ab", "b"]);
}

#[test]
fn pushed_event_pulls_back_unchanged() {
    let mut store = EventStore::new();
    let mut e = event("id-7", "entity-7", 1234, "device-7");
    e.payload = "{\"title\":\"buy milk\",\"n\":[1,2]}".to_string();
    e.entity_type = "list".to_string();
    e.event_type = "created".to_string();
    assert_eq!(submit(&mut store, e.clone()), Ok(()));
    let pulled = fetch_since(&store, &SinceQuery { since: e.timestamp - 1 });
    assert_eq!(pulled.len(), 1);
    assert!(same(&pulled[0], &e));
}

#[test]
fn malformed_envelopes_are_refused_without_change() {
    let cases: Vec<(Event, EnvelopeError)> = vec![
        (Event { id: String::new(), ..event("x", "t", 1, "d") }, EnvelopeError::MissingId),
        (Event { entity_id: String::new(), ..event("x", "t", 1, "d") }, EnvelopeError::MissingEntityId),
        (Event { entity_type: String::new(), ..event("x", "t", 1, "d") }, EnvelopeError::MissingEntityType),
        (Event { event_type: String::new(), ..event("x", "t", 1, "d") }, EnvelopeError::MissingEventType),
        (Event { device_id: String::new(), ..event("x", "t", 1, "d") }, EnvelopeError::MissingDeviceId),
        (Event { payload: "{".to_string(), ..event("x", "t", 1, "d") }, EnvelopeError::MalformedPayload),
        (Event { payload: String::new(), ..event("x", "t", 1, "d") }, EnvelopeError::MalformedPayload),
    ];
    for (e, err) in cases {
        let mut store = EventStore::new();
        assert_eq!(submit(&mut store, e), Err(err));
        assert_eq!(store.len(), 0);
    }
}

#[test]
fn first_defect_is_reported() {
    let e = Event { id: String::new(), payload: "{".to_string(), ..event("x", "t", 1, "d") };
    assert_eq!(check_envelope(&e), Err(EnvelopeError::MissingId));
    assert_eq!(check_envelope_with(&event("x", "t", 1, "d"), false), Err(EnvelopeError::MalformedPayload));
    assert_eq!(check_envelope_with(&event("x", "t", 1, "d"), true), Ok(()));
}

#[test]
fn json_payloads_of_any_shape_are_accepted() {
    for p in ["{}", "[]", "null", "42", "\"s\"", "{\"a\":{\"b\":[true,false]}}"] {
        let e = Event { payload: p.to_string(), ..event("x", "t", 1, "d") };
        assert_eq!(check_envelope(&e), Ok(()));
    }
    for p in ["{} {}", "{a:1}", "tru"] {
        let e = Event { payload: p.to_string(), ..event("x", "t", 1, "d") };
        assert_eq!(check_envelope(&e), Err(EnvelopeError::MalformedPayload));
    }
}

#[test]
fn new_events_get_fresh_hyphenated_ids() {
    let a = Event::new("t1".to_string(), "task".to_string(), "created".to_string(), "{}".to_string(), "d1".to_string());
    let b = Event::new("t1".to_string(), "task".to_string(), "created".to_string(), "{}".to_string(), "d1".to_string());
    assert_eq!(a.id.len(), 36);
    assert_ne!(a.id, b.id);
    assert_eq!(a.id.matches('-').count(), 4);
    assert_eq!(a.entity_id, "t1");
    assert_eq!(a.entity_type, "task");
    assert_eq!(a.event_type, "created");
    assert_eq!(a.payload, "{}");
    assert_eq!(a.device_id, "d1");
    assert!(a.timestamp > 1_600_000_000_000);
}

#[test]
fn id_order_is_byte_order() {
    assert!(id_precedes("e1", "e2"));
    assert!(!id_precedes("e2", "e1"));
    assert!(!id_precedes("e1", "e1"));
    assert!(id_precedes("a", "ab"));
    assert!(id_precedes("", "a"));
    assert!(id_precedes("Z", "a"));
    assert!(id_precedes("z", "é"));
}

#[test]
fn extreme_timestamps() {
    let mut store = EventStore::new();
    store.insert(event("lo", "x", i64::MIN, "d"));
    store.insert(event("hi", "x", i64::MAX, "d"));
    assert_eq!(ids(&store.query_after(i64::MIN)), vec!["hi"]);
    assert!(store.query_after(i64::MAX).is_empty());
    assert!(store.contains_id(&"lo".to_string()));
    assert!(!store.contains_id(&"mid".to_string()));
}

#[test]
fn store_functions_by_original_names() {
    let mut store = EventStore::new();
    let e = event("n1", "x", 50, "d");
    assert!(insert_event(&mut store, &e));
    assert!(!insert_event(&mut store, &e));
    assert!(same(&get_events_since(&store, 49)[0], &e));
    assert!(get_events_since(&store, 50).is_empty());
}
