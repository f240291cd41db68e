use mixpanel_rs::json::{Number, Value};
use mixpanel_rs::plugin::persistence::{
    default_persistent, expiry_time, updated_expiry, MILLIS_PER_DAY,
};
use mixpanel_rs::plugin::{Persistence, PersistenceError, PersistentData, RegisterOptions};
use mixpanel_rs::props::PropertyMap;
use mixpanel_rs::timers::TimerMap;

const NOW: u64 = 1_700_000_000_000;

fn text(s: &str) -> Value {
    Value::String(s.to_string())
}

fn number(n: u64) -> Value {
    Value::Number(Number::PosInt(n))
}

fn map(entries: Vec<(&str, Value)>) -> PropertyMap {
    let mut m = PropertyMap::new();
    for (k, v) in entries {
        m.insert(k.to_string(), v);
    }
    m
}

fn object(entries: Vec<(&str, Value)>) -> Value {
    Value::Object(entries.into_iter().map(|(k, v)| (k.to_string(), v)).collect())
}

fn fresh() -> Persistence {
    Persistence::new(Ok(None), NOW)
}

/// What a restart sees: the record as it was written, loaded at `now`.
fn reloaded(p: &Persistence, now: u64) -> Persistence {
    Persistence::new(Ok(Some(p.snapshot().to_value())), now)
}

#[test]
fn test_new_persistence_creates_default_when_no_file() {
    let persistence = fresh();
    assert!(persistence.get_distinct_id().is_none());
    assert!(persistence.get_properties(NOW).is_empty());
}

#[test]
fn test_new_persistence_starts_fresh_when_unreadable() {
    let persistence =
        Persistence::new(Err(PersistenceError::SerdeError("expected value".to_string())), NOW);
    assert!(persistence.get_distinct_id().is_none());
    assert!(persistence.get_properties(NOW).is_empty());
    assert!(persistence.data.store_expires_at.is_none());
}

#[test]
fn test_load_sync_hands_the_error_on() {
    let r = Persistence::load_sync(Err(PersistenceError::IoError("denied".to_string())), NOW);
    match r {
        Err(PersistenceError::IoError(m)) => assert_eq!(m, "denied"),
        other => panic!("unexpected: {:?}", other),
    }
    let r = Persistence::load_sync(Ok(None), NOW).unwrap();
    assert!(r.distinct_id.is_none());
    assert!(r.properties.is_empty());
}

#[test]
fn test_register_and_get_properties() {
    let mut persistence = fresh();
    let props = map(vec![("key1", text("value1")), ("key2", number(123))]);

    persistence.register(props.clone(), None, NOW);

    let retrieved_props = persistence.get_properties(NOW);
    assert_eq!(retrieved_props.len(), 2);
    assert_eq!(retrieved_props.get("key1"), Some(&text("value1")));
    assert_eq!(retrieved_props.get("key2"), Some(&number(123)));

    let file_data = persistence.snapshot();
    assert_eq!(file_data.properties.len(), 2);
    assert_eq!(file_data.properties.get("key1"), Some(&text("value1")));

    let again = reloaded(&persistence, NOW + 5);
    assert_eq!(again.get_property("key1", NOW + 5), Some(text("value1")));
    assert_eq!(again.get_property("key2", NOW + 5), Some(number(123)));
}

#[test]
fn test_register_replaces_a_value() {
    let mut persistence = fresh();
    persistence.register(map(vec![("key1", text("old")), ("key2", text("kept"))]), None, NOW);
    persistence.register(map(vec![("key1", text("new"))]), None, NOW);
    assert_eq!(persistence.get_property("key1", NOW), Some(text("new")));
    assert_eq!(persistence.get_property("key2", NOW), Some(text("kept")));
    assert_eq!(persistence.get_properties(NOW).len(), 2);
}

#[test]
fn test_register_once() {
    let mut persistence = fresh();
    let initial_props =
        map(vec![("key1", text("initial")), ("key2", text("initial_to_overwrite"))]);
    persistence.register(initial_props, None, NOW);

    let new_props = map(vec![
        ("key1", text("new_value")),           // Should not overwrite
        ("key2", text("new_value_overwrite")), // Should overwrite if default matches
        ("key3", text("new_key")),             // Should add
    ]);

    let changed =
        persistence.register_once(new_props, Some(text("initial_to_overwrite")), None, NOW);
    assert!(changed);

    let props = persistence.get_properties(NOW);
    assert_eq!(props.get("key1"), Some(&text("initial")));
    assert_eq!(props.get("key2"), Some(&text("new_value_overwrite")));
    assert_eq!(props.get("key3"), Some(&text("new_key")));

    let file_data = persistence.snapshot();
    assert_eq!(file_data.properties.get("key1"), Some(&text("initial")));
    assert_eq!(file_data.properties.get("key2"), Some(&text("new_value_overwrite")));
    assert_eq!(file_data.properties.get("key3"), Some(&text("new_key")));
}

#[test]
fn test_register_once_no_default() {
    let mut persistence = fresh();
    persistence.register(map(vec![("key1", text("initial"))]), None, NOW);

    let new_props = map(vec![
        ("key1", text("new_value")), // Should not overwrite
        ("key2", text("new_key")),   // Should add
    ]);

    persistence.register_once(new_props, None, None, NOW);

    let props = persistence.get_properties(NOW);
    assert_eq!(props.get("key1"), Some(&text("initial"))); // Remains initial
    assert_eq!(props.get("key2"), Some(&text("new_key"))); // Added

    let file_data = persistence.snapshot();
    assert_eq!(file_data.properties.get("key1"), Some(&text("initial")));
    assert_eq!(file_data.properties.get("key2"), Some(&text("new_key")));
}

#[test]
fn test_register_once_unchanged_keeps_the_expiry() {
    let mut persistence = fresh();
    persistence.register(map(vec![("key1", text("initial"))]), Some(1), NOW);
    let before = persistence.data.store_expires_at;
    let changed = persistence.register_once(map(vec![("key1", text("other"))]), None, Some(0), NOW);
    assert!(!changed);
    assert_eq!(persistence.data.store_expires_at, before);
    let changed = persistence.register_once(map(vec![("key2", text("other"))]), None, Some(0), NOW);
    assert!(changed);
    assert_eq!(persistence.data.store_expires_at, None);
}

#[test]
fn test_register_once_compares_whole_values() {
    let mut persistence = fresh();
    let held = object(vec![("a", Value::Array(vec![number(1), Value::Null]))]);
    persistence.register(map(vec![("key1", held.clone())]), None, NOW);
    let other = object(vec![("a", Value::Array(vec![number(1), Value::Bool(false)]))]);
    assert!(!persistence.register_once(map(vec![("key1", text("x"))]), Some(other), None, NOW));
    assert!(persistence.register_once(map(vec![("key1", text("x"))]), Some(held), None, NOW));
    assert_eq!(persistence.get_property("key1", NOW), Some(text("x")));
}

#[test]
fn test_unregister() {
    let mut persistence = fresh();
    let props = map(vec![("key_to_keep", text("keep")), ("key_to_remove", text("remove"))]);
    persistence.register(props, None, NOW);

    assert!(persistence.unregister("key_to_remove"));

    let current_props = persistence.get_properties(NOW);
    assert_eq!(current_props.len(), 1);
    assert!(current_props.contains_key("key_to_keep"));
    assert!(!current_props.contains_key("key_to_remove"));

    let file_data = persistence.snapshot();
    assert_eq!(file_data.properties.len(), 1);
    assert!(file_data.properties.contains_key("key_to_keep"));

    assert_eq!(reloaded(&persistence, NOW).get_property("key_to_remove", NOW), None);
    assert!(!persistence.unregister("key_to_remove"));
}

#[test]
fn test_set_get_distinct_id() {
    let mut persistence = fresh();

    assert_eq!(persistence.get_distinct_id(), None);
    persistence.set_distinct_id(Some("user123".to_string()));

    assert_eq!(persistence.get_distinct_id(), Some("user123".to_string()));

    let file_data = persistence.snapshot();
    assert_eq!(file_data.distinct_id, Some("user123".to_string()));

    persistence.set_distinct_id(None);
    assert_eq!(persistence.get_distinct_id(), None);

    let file_data_cleared = persistence.snapshot();
    assert_eq!(file_data_cleared.distinct_id, None);
}

#[test]
fn test_event_timers() {
    let mut persistence = fresh();
    let now = NOW;
    persistence.set_event_timer("test_event".to_string(), now);

    let file_data = persistence.snapshot();
    assert_eq!(file_data.event_timers.get("test_event"), Some(now));

    let removed_time = persistence.remove_event_timer("test_event");
    assert_eq!(removed_time, Some(now));

    let file_data_after_remove = persistence.snapshot();
    assert_eq!(file_data_after_remove.event_timers.len(), 0);
    assert!(persistence.remove_event_timer("test_event").is_none()); // Already removed
}

#[test]
fn test_event_timer_is_overwritten() {
    let mut persistence = fresh();
    persistence.set_event_timer("test_event".to_string(), 10);
    persistence.set_event_timer("other".to_string(), 15);
    persistence.set_event_timer("test_event".to_string(), 20);
    assert_eq!(persistence.data.event_timers.len(), 2);
    assert_eq!(persistence.remove_event_timer("test_event"), Some(20));
    assert_eq!(persistence.remove_event_timer("other"), Some(15));
}

#[test]
fn test_clear_all_data() {
    let mut persistence = fresh();
    persistence.set_distinct_id(Some("user_clear".to_string()));
    persistence.register(map(vec![("prop", text("value"))]), None, NOW);
    persistence.set_event_timer("timer".to_string(), 12345);

    assert!(persistence.snapshot().distinct_id.is_some());

    persistence.clear_all_data();

    assert!(persistence.get_distinct_id().is_none());
    assert!(persistence.get_properties(NOW).is_empty());
    assert!(persistence.remove_event_timer("timer").is_none());

    let file_data = persistence.snapshot();
    assert!(file_data.distinct_id.is_none());
    assert!(file_data.properties.is_empty());
    assert_eq!(file_data.event_timers.len(), 0);
    assert!(file_data.store_expires_at.is_none());
}

#[test]
fn test_register_with_expiration() {
    let mut persistence = fresh();
    let props = map(vec![("temp_prop", text("expires_soon"))]);

    persistence.register(props.clone(), Some(0), NOW);
    let file_data = persistence.snapshot();
    assert!(file_data.store_expires_at.is_none(), "Expiration should be None for 0 days");
    assert!(
        persistence.get_properties(NOW).contains_key("temp_prop"),
        "Property should exist immediately after register with 0 days"
    );

    persistence.register(props, Some(1), NOW);
    let file_data_1_day = persistence.snapshot();
    assert!(file_data_1_day.store_expires_at.is_some(), "Expiration should be set for 1 day");
    assert_eq!(file_data_1_day.store_expires_at, Some(NOW + 86_400_000));
    assert!(
        persistence.get_properties(NOW).contains_key("temp_prop"),
        "Property should exist immediately after register with 1 day"
    );
}

#[test]
fn test_expiry_moves_only_forward_while_it_holds() {
    let mut persistence = fresh();
    persistence.register(map(vec![("a", number(1))]), Some(10), NOW);
    assert_eq!(persistence.data.store_expires_at, Some(NOW + 10 * MILLIS_PER_DAY));
    // An earlier expiry does not replace a later one that still holds.
    persistence.register(map(vec![("b", number(2))]), Some(2), NOW);
    assert_eq!(persistence.data.store_expires_at, Some(NOW + 10 * MILLIS_PER_DAY));
    // A later one does.
    persistence.register(map(vec![("c", number(3))]), Some(20), NOW);
    assert_eq!(persistence.data.store_expires_at, Some(NOW + 20 * MILLIS_PER_DAY));
    // No number of days leaves it alone.
    persistence.register(map(vec![("d", number(4))]), None, NOW + 1);
    assert_eq!(persistence.data.store_expires_at, Some(NOW + 20 * MILLIS_PER_DAY));
    // Once it has passed, any positive number of days sets it anew.
    let late = NOW + 30 * MILLIS_PER_DAY;
    assert!(persistence.get_properties(late).is_empty());
    persistence.register(map(vec![("e", number(5))]), Some(1), late);
    assert_eq!(persistence.data.store_expires_at, Some(late + MILLIS_PER_DAY));
    assert_eq!(persistence.get_properties(late).len(), 5);
    // Zero days clears it.
    persistence.register(PropertyMap::new(), Some(0), late);
    assert_eq!(persistence.data.store_expires_at, None);
}

#[test]
fn test_expiry_arithmetic() {
    assert_eq!(MILLIS_PER_DAY, 24 * 60 * 60 * 1000);
    assert_eq!(expiry_time(1000, 1), 1000 + 86_400_000);
    assert_eq!(expiry_time(0, 0), 0);
    assert_eq!(expiry_time(u64::MAX - 5, 1), u64::MAX);
    assert_eq!(expiry_time(5, u64::MAX), u64::MAX);
    assert_eq!(expiry_time(0, u64::MAX / MILLIS_PER_DAY), (u64::MAX / MILLIS_PER_DAY) * MILLIS_PER_DAY);
    assert_eq!(updated_expiry(Some(7), None, 100), Some(7));
    assert_eq!(updated_expiry(Some(7), Some(0), 100), None);
    assert_eq!(updated_expiry(None, Some(1), 100), Some(100 + MILLIS_PER_DAY));
    assert_eq!(updated_expiry(Some(u64::MAX), Some(1), 100), Some(u64::MAX));
    assert_eq!(updated_expiry(Some(50), Some(1), 100), Some(100 + MILLIS_PER_DAY));
}

#[test]
fn test_properties_respect_expiration() {
    let mut persistence = fresh();
    persistence.register(map(vec![("prop1", text("value1"))]), None, NOW); // Register without expiry first

    let now = NOW;
    let expired_data = PersistentData {
        distinct_id: None,
        alias: None,
        event_timers: TimerMap::new(),
        properties: map(vec![("expired_prop", Value::Bool(true))]),
        store_expires_at: Some(now - 1000), // 1 second in the past
    };

    let persistence_reloaded = Persistence::new(Ok(Some(expired_data.to_value())), now);

    assert!(
        persistence_reloaded.get_properties(now).is_empty(),
        "Properties should be empty after loading expired data"
    );
    assert!(persistence_reloaded.data.properties.is_empty());
    assert!(persistence_reloaded.data.store_expires_at.is_none());
}

#[test]
fn test_expired_properties_are_invisible_at_once() {
    let mut persistence = fresh();
    persistence.register(map(vec![("prop1", text("value1"))]), Some(1), NOW);
    let at_expiry = NOW + MILLIS_PER_DAY;
    assert_eq!(persistence.get_property("prop1", at_expiry - 1), Some(text("value1")));
    assert_eq!(persistence.get_property("prop1", at_expiry), None);
    assert!(persistence.get_properties(at_expiry).is_empty());
    assert_eq!(persistence.get_properties(at_expiry - 1).len(), 1);
    // The record itself still holds the property until it is loaded again.
    assert!(persistence.data.properties.contains_key("prop1"));
    assert!(reloaded(&persistence, at_expiry).data.properties.is_empty());
    assert_eq!(reloaded(&persistence, at_expiry - 1).data.properties.len(), 1);
}

#[test]
fn test_loading_keeps_a_record_that_holds() {
    let mut persistence = fresh();
    persistence.set_distinct_id(Some("user_1".to_string()));
    persistence.set_event_timer("E".to_string(), 77);
    persistence.register(map(vec![("prop1", text("value1"))]), Some(1), NOW);
    let again = reloaded(&persistence, NOW + 1);
    assert_eq!(again.get_distinct_id(), Some("user_1".to_string()));
    assert_eq!(again.data.event_timers.get("E"), Some(77));
    assert_eq!(again.data.store_expires_at, Some(NOW + MILLIS_PER_DAY));
    assert_eq!(again.get_property("prop1", NOW + 1), Some(text("value1")));
}

#[test]
fn test_register_options_parsing() {
    // persistent: true (default), days: None (default)
    let options_none = None;
    let parsed_none = RegisterOptions::parse_options(options_none);
    assert_eq!(parsed_none.persistent, true);
    assert_eq!(parsed_none.days, None);

    // persistent: true (default), days: None (explicit null)
    let options_null = Some(object(vec![("days", Value::Null)]));
    let parsed_null = RegisterOptions::parse_options(options_null);
    assert_eq!(parsed_null.persistent, true);
    assert_eq!(parsed_null.days, None);

    // persistent: true (default), days: 10
    let options_days = Some(object(vec![("days", number(10))]));
    let parsed_days = RegisterOptions::parse_options(options_days);
    assert_eq!(parsed_days.persistent, true);
    assert_eq!(parsed_days.days, Some(10));

    // persistent: false, days: None (default)
    let options_not_persistent = Some(object(vec![("persistent", Value::Bool(false))]));
    let parsed_not_persistent = RegisterOptions::parse_options(options_not_persistent);
    assert_eq!(parsed_not_persistent.persistent, false);
    assert_eq!(parsed_not_persistent.days, None);

    // persistent: false, days: 5
    let options_both = Some(object(vec![("persistent", Value::Bool(false)), ("days", number(5))]));
    let parsed_both = RegisterOptions::parse_options(options_both);
    assert_eq!(parsed_both.persistent, false);
    assert_eq!(parsed_both.days, Some(5));

    // Extra properties ignored
    let options_extra =
        Some(object(vec![("persistent", Value::Bool(false)), ("extra", text("ignored"))]));
    let parsed_extra = RegisterOptions::parse_options(options_extra);
    assert_eq!(parsed_extra.persistent, false);
    assert_eq!(parsed_extra.days, None);

    // Invalid types default
    let options_invalid =
        Some(object(vec![("persistent", text("not a bool")), ("days", text("not a number"))]));
    let parsed_invalid = RegisterOptions::parse_options(options_invalid);
    assert_eq!(parsed_invalid.persistent, true); // defaults to true
    assert_eq!(parsed_invalid.days, None);

    // Not an object defaults
    let options_not_object = Some(Value::Array(vec![text("persistent"), Value::Bool(false)]));
    let parsed_not_object = RegisterOptions::parse_options(options_not_object);
    assert_eq!(parsed_not_object.persistent, true);
    assert_eq!(parsed_not_object.days, None);
}

#[test]
fn test_register_options_numbers() {
    let negative = Some(object(vec![("days", Value::Number(Number::NegInt(-1)))]));
    assert_eq!(RegisterOptions::parse_options(negative).days, None);
    let fraction = Some(object(vec![("days", Value::Number(Number::Float(1.5f64.to_bits())))]));
    assert_eq!(RegisterOptions::parse_options(fraction).days, None);
    let defaults = RegisterOptions::default();
    assert!(defaults.persistent);
    assert_eq!(defaults.days, None);
    assert!(default_persistent());
}

#[test]
fn test_record_layout() {
    let mut timers = TimerMap::new();
    timers.insert("E".to_string(), 77);
    let data = PersistentData {
        distinct_id: Some("user_1".to_string()),
        alias: None,
        event_timers: timers,
        properties: map(vec![("plan", text("pro"))]),
        store_expires_at: Some(NOW),
    };
    assert_eq!(
        data.to_value(),
        object(vec![
            ("distinct_id", text("user_1")),
            ("alias", Value::Null),
            ("event_timers", object(vec![("E", number(77))])),
            ("properties", object(vec![("plan", text("pro"))])),
            ("store_expires_at", number(NOW)),
        ])
    );
    let again = PersistentData::from_value(data.to_value()).unwrap();
    assert_eq!(again.distinct_id, Some("user_1".to_string()));
    assert_eq!(again.alias, None);
    assert_eq!(again.event_timers.entries(), vec![("E".to_string(), 77)]);
    assert_eq!(again.properties.get("plan"), Some(&text("pro")));
    assert_eq!(again.properties.len(), 1);
    assert_eq!(again.store_expires_at, Some(NOW));
}

#[test]
fn test_record_layout_is_lenient_where_members_may_be_missing() {
    let data = PersistentData::from_value(object(vec![
        ("properties", object(vec![])),
        ("extra", number(1)),
        ("event_timers", object(vec![])),
    ]))
    .unwrap();
    assert_eq!(data.distinct_id, None);
    assert_eq!(data.alias, None);
    assert_eq!(data.store_expires_at, None);
    assert!(data.properties.is_empty());
    assert_eq!(data.event_timers.len(), 0);
}

#[test]
fn test_record_without_the_layout() {
    let good = vec![
        ("distinct_id", Value::Null),
        ("alias", text("a")),
        ("event_timers", object(vec![("E", number(1))])),
        ("properties", object(vec![("p", Value::Null)])),
        ("store_expires_at", Value::Null),
    ];
    assert!(PersistentData::from_value(object(good.clone())).is_ok());
    let breaks: Vec<(&str, Option<Value>)> = vec![
        ("distinct_id", Some(number(1))),
        ("alias", Some(Value::Bool(false))),
        ("event_timers", None),
        ("event_timers", Some(Value::Null)),
        ("event_timers", Some(object(vec![("E", text("1"))]))),
        ("event_timers", Some(object(vec![("E", Value::Number(Number::NegInt(-1)))]))),
        ("event_timers", Some(object(vec![("E", Value::Number(Number::Float(1.0f64.to_bits())))]))),
        ("properties", None),
        ("properties", Some(Value::Array(vec![]))),
        ("store_expires_at", Some(text("never"))),
        ("store_expires_at", Some(Value::Number(Number::Float(1.5f64.to_bits())))),
    ];
    for (name, replacement) in breaks {
        let mut members: Vec<(&str, Value)> =
            good.iter().filter(|(k, _)| *k != name).cloned().collect();
        if let Some(v) = replacement.clone() {
            members.push((name, v));
        }
        match PersistentData::from_value(object(members)) {
            Err(PersistenceError::SerdeError(m)) => {
                assert_eq!(m, "the stored record does not have the expected layout")
            }
            other => panic!("unexpected for {:?}: {:?}", (name, replacement), other),
        }
    }
    for v in [Value::Null, Value::Array(vec![]), text("{}"), number(0)] {
        assert!(PersistentData::from_value(v).is_err());
    }
}

#[test]
fn test_store_starts_fresh_on_a_record_without_the_layout() {
    let persistence = Persistence::new(Ok(Some(object(vec![("properties", number(1))]))), NOW);
    assert!(persistence.get_distinct_id().is_none());
    assert!(persistence.get_properties(NOW).is_empty());
    let r = Persistence::load_sync(Ok(Some(Value::Null)), NOW);
    assert!(r.is_err());
}

#[test]
fn test_timers_as_properties() {
    let mut timers = TimerMap::new();
    timers.insert("a".to_string(), 1);
    timers.insert("b".to_string(), u64::MAX);
    let stamps = timers.to_properties();
    assert_eq!(stamps.len(), 2);
    assert_eq!(stamps.get("a"), Some(&number(1)));
    assert_eq!(stamps.get("b"), Some(&number(u64::MAX)));
    let again = TimerMap::from_properties(stamps).unwrap();
    assert_eq!(again.get("a"), Some(1));
    assert_eq!(again.get("b"), Some(u64::MAX));
    assert_eq!(again.get("c"), None);
    assert!(TimerMap::from_properties(map(vec![("a", number(1)), ("b", text("2"))])).is_none());
    assert_eq!(TimerMap::from_properties(PropertyMap::new()).unwrap().len(), 0);
    let copy = timers.clone();
    assert_eq!(copy.entries(), timers.entries());
}

#[test]
fn test_same_record() {
    let mut a = fresh();
    a.set_distinct_id(Some("u1".to_string()));
    a.register(map(vec![("x", number(1)), ("y", text("t"))]), Some(1), NOW);
    a.set_event_timer("E".to_string(), 5);
    let mut b = fresh();
    b.set_event_timer("E".to_string(), 5);
    b.register(map(vec![("y", text("t"))]), Some(1), NOW);
    b.register(map(vec![("x", number(1))]), None, NOW);
    assert!(!a.snapshot().same_as(&b.snapshot()));
    b.set_distinct_id(Some("u1".to_string()));
    // The order in which the properties came does not count.
    assert!(a.snapshot().same_as(&b.snapshot()));
    assert!(b.snapshot().same_as(&a.snapshot()));
    let same = a.snapshot();
    b.register(map(vec![("x", number(2))]), None, NOW);
    assert!(!same.same_as(&b.snapshot()));
    b.register(map(vec![("x", number(1)), ("z", Value::Null)]), None, NOW);
    assert!(!same.same_as(&b.snapshot()));
    b.unregister("z");
    assert!(same.same_as(&b.snapshot()));
    b.set_event_timer("E".to_string(), 6);
    assert!(!same.same_as(&b.snapshot()));
    b.set_event_timer("E".to_string(), 5);
    b.register(PropertyMap::new(), Some(0), NOW);
    assert!(!same.same_as(&b.snapshot()));
    assert!(fresh().snapshot().same_as(&fresh().snapshot()));
    assert!(map(vec![]).same_as(&PropertyMap::new()));
    assert!(!map(vec![("a", number(1))]).same_as(&map(vec![("b", number(1))])));
}
