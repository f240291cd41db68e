use mixpanel_rs::json::{Number, Value};
use mixpanel_rs::plugin::{Error, MixpanelPeople, Persistence};
use mixpanel_rs::props::PropertyMap;

const NOW: u64 = 1_700_000_000_000;

fn text(s: &str) -> Value {
    Value::String(s.to_string())
}

fn number(n: u64) -> Value {
    Value::Number(Number::PosInt(n))
}

fn object(entries: Vec<(&str, Value)>) -> Value {
    Value::Object(entries.into_iter().map(|(k, v)| (k.to_string(), v)).collect())
}

fn map(entries: Vec<(&str, Value)>) -> PropertyMap {
    let mut m = PropertyMap::new();
    for (k, v) in entries {
        m.insert(k.to_string(), v);
    }
    m
}

fn members_of(v: Value) -> PropertyMap {
    match v {
        Value::Object(members) => PropertyMap::from_members(members),
        other => panic!("not an object: {:?}", other),
    }
}

fn usage_message(e: Error) -> String {
    match e {
        Error::MixpanelError(m) => m,
        other => panic!("not a usage error: {:?}", other),
    }
}

fn identified() -> (MixpanelPeople, Persistence) {
    let mut store = Persistence::new(Ok(None), NOW);
    store.set_distinct_id(Some("u1".to_string()));
    (MixpanelPeople::new("tok"), store)
}

fn anonymous() -> (MixpanelPeople, Persistence) {
    let mut store = Persistence::new(Ok(None), NOW);
    store.set_distinct_id(Some("device:m-1".to_string()));
    (MixpanelPeople::new("tok"), store)
}

fn action_of(request: Option<Value>, action: &str) -> Value {
    let request = members_of(request.unwrap());
    assert_eq!(request.len(), 3);
    assert_eq!(request.get("$token"), Some(&text("tok")));
    assert_eq!(request.get("$distinct_id"), Some(&text("u1")));
    request.get(action).unwrap().clone()
}

#[test]
fn test_identify_called() {
    let (people, store) = identified();
    assert!(people.identify_called(&store));
    let (people, store) = anonymous();
    assert!(!people.identify_called(&store));
    let store = Persistence::new(Ok(None), NOW);
    assert!(!people.identify_called(&store));
    let mut store = Persistence::new(Ok(None), NOW);
    store.set_distinct_id(Some("device:".to_string()));
    assert!(!people.identify_called(&store));
    store.set_distinct_id(Some("devices:m-1".to_string()));
    assert!(people.identify_called(&store));
    store.set_distinct_id(Some("device".to_string()));
    assert!(people.identify_called(&store));
}

#[test]
fn test_reserved_properties() {
    let people = MixpanelPeople::new("tok");
    for name in ["$distinct_id", "$token", "$device_id", "$user_id", "$had_persisted_distinct_id"] {
        assert!(people.is_reserved_property(name));
    }
    for name in ["distinct_id", "token", "$alias", "", "$TOKEN", "$token "] {
        assert!(!people.is_reserved_property(name));
    }
}

#[test]
fn test_people_set_with_an_object() {
    let (people, store) = identified();
    let request = people
        .set(&store, object(vec![("plan", text("pro")), ("$token", text("x")), ("n", number(1))]), None)
        .unwrap();
    assert_eq!(action_of(request, "$set"), object(vec![("plan", text("pro")), ("n", number(1))]));
}

#[test]
fn test_people_set_with_a_name() {
    let (people, store) = identified();
    let request = people.set(&store, text("plan"), Some(text("pro"))).unwrap();
    assert_eq!(action_of(request, "$set"), object(vec![("plan", text("pro"))]));
    let request = people.set(&store, text("plan"), None).unwrap();
    assert_eq!(action_of(request, "$set"), object(vec![("plan", Value::Null)]));
}

#[test]
fn test_people_set_sends_nothing_for_nothing() {
    let (people, store) = identified();
    assert_eq!(people.set(&store, text("$user_id"), Some(text("x"))).unwrap(), None);
    assert_eq!(people.set(&store, object(vec![]), None).unwrap(), None);
    assert_eq!(people.set(&store, object(vec![("$device_id", text("x"))]), None).unwrap(), None);
}

#[test]
fn test_people_operations_are_dropped_before_identify() {
    let (people, store) = anonymous();
    assert_eq!(people.set(&store, text("plan"), Some(text("pro"))).unwrap(), None);
    assert_eq!(people.set_once(&store, text("plan"), Some(text("pro"))).unwrap(), None);
    assert_eq!(people.unset(&store, text("plan")).unwrap(), None);
    assert_eq!(people.increment(&store, text("n"), None).unwrap(), None);
    assert_eq!(people.append(&store, text("l"), Some(text("x"))).unwrap(), None);
    assert_eq!(people.remove(&store, text("l"), Some(text("x"))).unwrap(), None);
    assert_eq!(people.union(&store, text("l"), Some(text("x"))).unwrap(), None);
    assert_eq!(people.delete_user(&store).unwrap(), None);
    assert_eq!(people.send_request(&store, "$nothing", PropertyMap::new()).unwrap(), None);
}

#[test]
fn test_people_invalid_arguments() {
    let (people, store) = identified();
    let cases: Vec<(Result<Option<Value>, Error>, &str)> = vec![
        (
            people.set(&store, number(1), None),
            "Invalid 'prop' argument for people.set. Must be String or Object.",
        ),
        (
            people.set_once(&store, Value::Null, None),
            "Invalid 'prop' argument for people.set_once. Must be String or Object.",
        ),
        (
            people.unset(&store, object(vec![])),
            "Invalid 'prop' argument for people.unset. Must be String or Array of Strings.",
        ),
        (
            people.unset(&store, Value::Array(vec![text("a"), number(1), text("b")])),
            "Invalid array element in people.unset. Must be strings.",
        ),
        (
            people.increment(&store, Value::Array(vec![]), None),
            "Invalid 'prop' argument for people.increment. Must be String or Object.",
        ),
        (
            people.increment(&store, text("n"), Some(text("1"))),
            "Invalid 'by' argument for people.increment. Must be a number.",
        ),
        (
            people.append(&store, Value::Bool(true), None),
            "Invalid 'list_name' argument for people.append. Must be String or Object.",
        ),
        (
            people.remove(&store, number(2), None),
            "Invalid 'list_name' argument for people.remove. Must be String or Object.",
        ),
        (
            people.union(&store, Value::Null, None),
            "Invalid 'list_name' argument for people.union. Must be String or Object.",
        ),
        (people.send_request(&store, "$nothing", PropertyMap::new()), "Unknown People action: $nothing"),
    ];
    for (result, message) in cases {
        assert_eq!(usage_message(result.err().unwrap()), message);
    }
}

#[test]
fn test_parse_and_filter_props() {
    let people = MixpanelPeople::new("tok");
    let props = people
        .parse_and_filter_props(
            object(vec![("a", number(1)), ("$user_id", text("x")), ("a", number(2))]),
            "set",
        )
        .unwrap();
    assert_eq!(props.len(), 1);
    assert_eq!(props.get("a"), Some(&number(2)));
    assert!(people.parse_and_filter_props(Value::Null, "set").unwrap().is_empty());
    let r = people.parse_and_filter_props(text("a"), "append");
    assert_eq!(
        usage_message(r.err().unwrap()),
        "Properties for people.append must be an object or null"
    );
}

#[test]
fn test_people_set_once_append_remove() {
    let (people, store) = identified();
    let request = people.set_once(&store, text("plan"), Some(text("pro"))).unwrap();
    assert_eq!(action_of(request, "$set_once"), object(vec![("plan", text("pro"))]));
    let request = people.append(&store, text("tags"), Some(text("a"))).unwrap();
    assert_eq!(action_of(request, "$append"), object(vec![("tags", text("a"))]));
    let request = people.remove(&store, object(vec![("tags", text("a"))]), Some(text("b"))).unwrap();
    assert_eq!(action_of(request, "$remove"), object(vec![("tags", text("a"))]));
}

#[test]
fn test_people_unset() {
    let (people, store) = identified();
    let request = people.unset(&store, text("plan")).unwrap();
    assert_eq!(action_of(request, "$unset"), Value::Array(vec![text("plan")]));
    let request = people
        .unset(&store, Value::Array(vec![text("a"), text("$token"), text("b"), text("a")]))
        .unwrap();
    assert_eq!(action_of(request, "$unset"), Value::Array(vec![text("a"), text("b")]));
    assert_eq!(people.unset(&store, text("$token")).unwrap(), None);
    assert_eq!(people.unset(&store, Value::Array(vec![])).unwrap(), None);
}

#[test]
fn test_people_increment() {
    let (people, store) = identified();
    let request = people.increment(&store, text("n"), None).unwrap();
    assert_eq!(action_of(request, "$add"), object(vec![("n", number(1))]));
    let request = people
        .increment(&store, text("n"), Some(Value::Number(Number::NegInt(-4))))
        .unwrap();
    assert_eq!(action_of(request, "$add"), object(vec![("n", Value::Number(Number::NegInt(-4)))]));
    let request = people
        .increment(&store, object(vec![("a", number(2)), ("$token", text("skipped")), ("b", number(3))]), None)
        .unwrap();
    assert_eq!(action_of(request, "$add"), object(vec![("a", number(2)), ("b", number(3))]));
    assert_eq!(people.increment(&store, text("$user_id"), Some(text("x"))).unwrap(), None);
}

#[test]
fn test_people_increment_aborts_on_what_is_no_number() {
    let (people, store) = identified();
    let r = people.increment(
        &store,
        object(vec![("a", number(2)), ("b", text("3")), ("c", Value::Null)]),
        None,
    );
    assert_eq!(usage_message(r.err().unwrap()), "Invalid increment value for key 'b'");
    // The same holds before the caller has given an identity.
    let (people, store) = anonymous();
    let r = people.increment(&store, object(vec![("b", Value::Bool(true))]), None);
    assert_eq!(usage_message(r.err().unwrap()), "Invalid increment value for key 'b'");
    // A value under a reserved name is left out before it is looked at.
    let (people, store) = identified();
    let request =
        people.increment(&store, object(vec![("$token", text("x")), ("a", number(2))]), None);
    assert_eq!(action_of(request.unwrap(), "$add"), object(vec![("a", number(2))]));
}

#[test]
fn test_people_increment_takes_every_number() {
    let (people, store) = identified();
    let half = Value::Number(Number::Float(1.5f64.to_bits()));
    let request = people.increment(&store, object(vec![("score", half.clone())]), None).unwrap();
    assert_eq!(action_of(request, "$add"), object(vec![("score", half.clone())]));
    let large = Value::Number(Number::PosInt(u64::MAX));
    let request = people.increment(&store, text("n"), Some(large.clone())).unwrap();
    assert_eq!(action_of(request, "$add"), object(vec![("n", large.clone())]));
    let request = people
        .increment(
            &store,
            object(vec![
                ("a", number(2)),
                ("h", half.clone()),
                ("m", Value::Number(Number::NegInt(-3))),
                ("t", Value::Number(Number::Thousandths(1500))),
            ]),
            None,
        )
        .unwrap();
    assert_eq!(
        action_of(request, "$add"),
        object(vec![
            ("a", number(2)),
            ("h", half),
            ("m", Value::Number(Number::NegInt(-3))),
            ("t", Value::Number(Number::Thousandths(1500))),
        ])
    );
    // Handed to `send_request` as they are, amounts that are no numbers fail.
    let r = people.send_request(&store, "$add", map(vec![("a", number(1)), ("b", text("1"))]));
    assert_eq!(usage_message(r.err().unwrap()), "Invalid increment value for key 'b'");
}

#[test]
fn test_people_union_wraps_a_single_value() {
    let (people, store) = identified();
    let request = people.union(&store, text("tags"), Some(text("a"))).unwrap();
    assert_eq!(action_of(request, "$union"), object(vec![("tags", Value::Array(vec![text("a")]))]));
    let request = people
        .union(&store, text("tags"), Some(Value::Array(vec![text("a"), text("b")])))
        .unwrap();
    assert_eq!(
        action_of(request, "$union"),
        object(vec![("tags", Value::Array(vec![text("a"), text("b")]))])
    );
    let request = people.union(&store, text("tags"), None).unwrap();
    assert_eq!(action_of(request, "$union"), object(vec![("tags", Value::Array(vec![]))]));
    let request = people
        .union(
            &store,
            object(vec![
                ("a", number(1)),
                ("$token", text("x")),
                ("b", Value::Array(vec![Value::Null])),
                ("c", object(vec![])),
            ]),
            None,
        )
        .unwrap();
    assert_eq!(
        action_of(request, "$union"),
        object(vec![
            ("a", Value::Array(vec![number(1)])),
            ("b", Value::Array(vec![Value::Null])),
            ("c", Value::Array(vec![object(vec![])])),
        ])
    );
    assert_eq!(MixpanelPeople::list_of(Value::Null), Value::Array(vec![Value::Null]));
}

#[test]
fn test_people_delete_user() {
    let (people, store) = identified();
    let request = people.delete_user(&store).unwrap();
    assert_eq!(action_of(request, "$delete"), text(""));
}

#[test]
fn test_send_request_for_each_action() {
    let (people, store) = identified();
    let props = map(vec![("a", number(1)), ("b", number(2))]);
    for action in ["$set", "$set_once", "$append", "$remove", "$union", "$add"] {
        let request = people.send_request(&store, action, props.clone()).unwrap();
        assert_eq!(action_of(request, action), object(vec![("a", number(1)), ("b", number(2))]));
    }
    let request = people.send_request(&store, "$unset", props.clone()).unwrap();
    assert_eq!(action_of(request, "$unset"), Value::Array(vec![text("a"), text("b")]));
    let request = people.send_request(&store, "$delete", props).unwrap();
    assert_eq!(action_of(request, "$delete"), text(""));
}
