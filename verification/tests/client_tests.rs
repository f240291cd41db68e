use mixpanel_rs::json::{Number, Value};
use mixpanel_rs::client::TRACK_ENDPOINT;
use mixpanel_rs::people::ENGAGE_ENDPOINT;
use mixpanel_rs::groups::GROUPS_ENDPOINT;
use mixpanel_rs::props::PropertyMap;
use mixpanel_rs::{Config, Mixpanel, Modifiers};

fn text(s: &str) -> Value {
    Value::String(s.to_string())
}

fn map(entries: Vec<(&str, Value)>) -> PropertyMap {
    let mut m = PropertyMap::new();
    for (k, v) in entries {
        m.insert(k.to_string(), v);
    }
    m
}

fn object(entries: Vec<(&str, Value)>) -> Value {
    Value::Object(entries.into_iter().map(|(k, v)| (k.to_string(), v)).collect())
}

fn members_of(v: Value) -> PropertyMap {
    match v {
        Value::Object(members) => PropertyMap::from_members(members),
        other => panic!("not an object: {:?}", other),
    }
}

#[test]
fn test_init() {
    let mp = Mixpanel::init("test_token", None);
    assert_eq!(mp.token, "test_token");
    assert_eq!(mp.config.host, "api.mixpanel.com");
}

#[test]
fn test_custom_config() {
    let config = Config { host: "custom.example.com".to_string(), test: true, ..Default::default() };

    let mp = Mixpanel::init("test_token", Some(config));
    assert_eq!(mp.config.host, "custom.example.com");
    assert!(mp.config.test);
}

#[test]
fn test_default_config() {
    let config = Config::default();
    assert!(!config.test);
    assert!(!config.debug);
    assert!(!config.verbose);
    assert_eq!(config.protocol, "https");
    assert_eq!(config.path, "");
    assert_eq!(config.secret, None);
    assert_eq!(config.api_key, None);
    assert!(!config.geolocate);
    assert_eq!(config.max_retries, 3);
    assert_eq!(config.retry_base_delay_ms, 1000);
    assert_eq!(config.retry_max_delay_ms, 10000);
}

#[test]
fn test_track_stamps_the_event() {
    let mp = Mixpanel::init("test_token", None);
    let event = mp.track("Signed Up", Some(map(vec![("plan", text("pro"))])));
    assert_eq!(event.event, "Signed Up");
    assert_eq!(event.properties.len(), 4);
    assert_eq!(event.properties.get("plan"), Some(&text("pro")));
    assert_eq!(event.properties.get("token"), Some(&text("test_token")));
    assert_eq!(event.properties.get("mp_lib"), Some(&text("rust")));
    assert_eq!(event.properties.get("$lib_version"), Some(&text("0.1.0")));
}

#[test]
fn test_track_without_properties() {
    let mp = Mixpanel::init("test_token", None);
    let event = mp.track("Opened", None);
    assert_eq!(event.properties.len(), 3);
    assert_eq!(event.properties.get("token"), Some(&text("test_token")));
}

#[test]
fn test_track_overrides_a_given_token() {
    let mp = Mixpanel::init("test_token", None);
    let event = mp.track("Opened", Some(map(vec![("token", text("other"))])));
    assert_eq!(event.properties.get("token"), Some(&text("test_token")));
}

#[test]
fn test_track_turns_a_time_string_into_a_number() {
    let mp = Mixpanel::init("test_token", None);
    let event = mp.track("Opened", Some(map(vec![("time", text("1234567890"))])));
    assert_eq!(event.properties.get("time"), Some(&Value::Number(Number::PosInt(1234567890))));
}

#[test]
fn test_track_keeps_a_time_that_is_no_number() {
    let mp = Mixpanel::init("test_token", None);
    let event = mp.track("Opened", Some(map(vec![("time", text("yesterday"))])));
    assert_eq!(event.properties.get("time"), Some(&text("yesterday")));
    let event = mp.track("Opened", Some(map(vec![("time", Value::Number(Number::PosInt(7)))])));
    assert_eq!(event.properties.get("time"), Some(&Value::Number(Number::PosInt(7))));
    let event = mp.track("Opened", Some(map(vec![("time", Value::Bool(true))])));
    assert_eq!(event.properties.get("time"), Some(&Value::Bool(true)));
}

#[test]
fn test_alias_event() {
    let mp = Mixpanel::init("test_token", None);
    let event = mp.alias("user_1", "nickname");
    assert_eq!(event.event, "$create_alias");
    assert_eq!(event.properties.get("distinct_id"), Some(&text("user_1")));
    assert_eq!(event.properties.get("alias"), Some(&text("nickname")));
    assert_eq!(event.properties.get("token"), Some(&text("test_token")));
    assert_eq!(event.properties.len(), 5);
}

#[test]
fn test_endpoints() {
    assert_eq!(ENGAGE_ENDPOINT, "/engage");
    assert_eq!(GROUPS_ENDPOINT, "/groups");
    assert_eq!(TRACK_ENDPOINT, "/track");
}

#[test]
fn test_event_as_it_is_written() {
    let mp = Mixpanel::init("test_token", None);
    let event = mp.track("Opened", Some(map(vec![("plan", text("pro"))])));
    assert_eq!(
        event.into_value(),
        object(vec![
            ("event", text("Opened")),
            (
                "properties",
                object(vec![
                    ("plan", text("pro")),
                    ("token", text("test_token")),
                    ("mp_lib", text("rust")),
                    ("$lib_version", text("0.1.0")),
                ])
            ),
        ])
    );
}

#[test]
fn people_test_set() {
    let mp = Mixpanel::init("test_token", None);
    let props = map(vec![("key1", text("value1"))]);

    let result = mp.people.set("test_user", props, None);
    assert_eq!(
        result,
        object(vec![
            ("$token", text("test_token")),
            ("$distinct_id", text("test_user")),
            ("$set", object(vec![("key1", text("value1"))])),
        ])
    );
}

#[test]
fn people_test_set_once() {
    let mp = Mixpanel::init("test_token", None);
    let props = map(vec![("key1", text("value1"))]);

    let result = mp.people.set_once("test_user", props, None);
    assert_eq!(
        result,
        object(vec![
            ("$token", text("test_token")),
            ("$distinct_id", text("test_user")),
            ("$set_once", object(vec![("key1", text("value1"))])),
        ])
    );
}

#[test]
fn test_increment() {
    let mp = Mixpanel::init("test_token", None);
    let props = vec![("counter".to_string(), 1)];

    let result = mp.people.increment("test_user", props, None);
    assert_eq!(
        result,
        object(vec![
            ("$token", text("test_token")),
            ("$distinct_id", text("test_user")),
            ("$add", object(vec![("counter", Value::Number(Number::PosInt(1)))])),
        ])
    );
}

#[test]
fn test_increment_with_value() {
    let mp = Mixpanel::init("test_token", None);
    let props = vec![("counter".to_string(), 5), ("another_counter".to_string(), -3)];

    let result = members_of(mp.people.increment("test_user", props, None));
    assert_eq!(
        result.get("$add"),
        Some(&object(vec![
            ("counter", Value::Number(Number::PosInt(5))),
            ("another_counter", Value::Number(Number::NegInt(-3))),
        ]))
    );
}

#[test]
fn test_increment_later_amount_counts() {
    let mp = Mixpanel::init("test_token", None);
    let props = vec![("counter".to_string(), 5), ("counter".to_string(), 7)];
    let result = members_of(mp.people.increment("test_user", props, None));
    assert_eq!(result.get("$add"), Some(&object(vec![("counter", Value::Number(Number::PosInt(7)))])));
}

#[test]
fn test_append() {
    let mp = Mixpanel::init("test_token", None);
    let props = map(vec![("items", text("item1"))]);

    let result = members_of(mp.people.append("test_user", props, None));
    assert_eq!(result.get("$append"), Some(&object(vec![("items", text("item1"))])));
    assert_eq!(result.get("$distinct_id"), Some(&text("test_user")));
}

#[test]
fn test_append_multiple() {
    let mp = Mixpanel::init("test_token", None);
    let props = map(vec![("items", text("item1")), ("tags", text("tag1"))]);

    let result = members_of(mp.people.append("test_user", props, None));
    assert_eq!(
        result.get("$append"),
        Some(&object(vec![("items", text("item1")), ("tags", text("tag1"))]))
    );
}

#[test]
fn test_track_charge() {
    let mp = Mixpanel::init("test_token", None);

    let result = members_of(mp.people.track_charge("test_user", 50.0f64.to_bits(), None, None));
    assert_eq!(
        result.get("$append"),
        Some(&object(vec![(
            "$transactions",
            object(vec![("$amount", Value::Number(Number::Float(50.0f64.to_bits())))])
        )]))
    );
}

#[test]
fn test_track_charge_with_properties() {
    let mp = Mixpanel::init("test_token", None);

    let props = map(vec![("item", text("Premium Plan"))]);

    let result =
        members_of(mp.people.track_charge("test_user", 50.0f64.to_bits(), Some(props), None));
    assert_eq!(
        result.get("$append"),
        Some(&object(vec![(
            "$transactions",
            object(vec![
                ("item", text("Premium Plan")),
                ("$amount", Value::Number(Number::Float(50.0f64.to_bits()))),
            ])
        )]))
    );
}

#[test]
fn test_clear_charges() {
    let mp = Mixpanel::init("test_token", None);

    let result = members_of(mp.people.clear_charges("test_user", None));
    assert_eq!(result.get("$set"), Some(&object(vec![("$transactions", Value::Array(vec![]))])));
    assert_eq!(result.get("$token"), Some(&text("test_token")));
}

#[test]
fn test_delete_user() {
    let mp = Mixpanel::init("test_token", None);

    let result = mp.people.delete_user("test_user", None);
    assert_eq!(
        result,
        object(vec![
            ("$token", text("test_token")),
            ("$distinct_id", text("test_user")),
            ("$delete", text("")),
        ])
    );
}

#[test]
fn test_delete_user_with_modifiers() {
    let mp = Mixpanel::init("test_token", None);

    let modifiers =
        Modifiers { ignore_time: Some(true), ignore_alias: Some(true), ..Default::default() };

    let result = members_of(mp.people.delete_user("test_user", Some(modifiers)));
    assert_eq!(result.len(), 5);
    assert_eq!(result.get("$delete"), Some(&text("")));
    assert_eq!(result.get("$ignore_time"), Some(&Value::Bool(true)));
    assert_eq!(result.get("$ignore_alias"), Some(&Value::Bool(true)));
}

#[test]
fn people_test_remove() {
    let mp = Mixpanel::init("test_token", None);

    let props = map(vec![("browsers", text("firefox"))]);

    let result = members_of(mp.people.remove("test_user", props, None));
    assert_eq!(result.get("$remove"), Some(&object(vec![("browsers", text("firefox"))])));
}

#[test]
fn people_test_remove_multiple() {
    let mp = Mixpanel::init("test_token", None);

    let props = map(vec![("browsers", text("firefox")), ("apps", text("vscode"))]);

    let result = members_of(mp.people.remove("test_user", props, None));
    assert_eq!(
        result.get("$remove"),
        Some(&object(vec![("browsers", text("firefox")), ("apps", text("vscode"))]))
    );
}

#[test]
fn people_test_union() {
    let mp = Mixpanel::init("test_token", None);

    let browsers: Vec<Value> = vec![text("firefox"), text("chrome")];
    let props = map(vec![("browsers", Value::Array(browsers.clone()))]);

    let result = members_of(mp.people.union("test_user", props, None));
    assert_eq!(result.get("$union"), Some(&object(vec![("browsers", Value::Array(browsers))])));
}

#[test]
fn test_union_scalar() {
    let mp = Mixpanel::init("test_token", None);

    let browsers: Vec<Value> = vec![text("firefox")];
    let props = map(vec![("browsers", Value::Array(browsers.clone()))]);

    let result = members_of(mp.people.union("test_user", props, None));
    assert_eq!(result.get("$union"), Some(&object(vec![("browsers", Value::Array(browsers))])));
}

#[test]
fn people_test_unset() {
    let mp = Mixpanel::init("test_token", None);

    let props = vec!["key1".to_string()];

    let result = members_of(mp.people.unset("test_user", props, None));
    assert_eq!(result.get("$unset"), Some(&Value::Array(vec![text("key1")])));
}

#[test]
fn people_test_unset_multiple() {
    let mp = Mixpanel::init("test_token", None);

    let props = vec!["key1".to_string(), "key2".to_string()];

    let result = members_of(mp.people.unset("test_user", props, None));
    assert_eq!(result.get("$unset"), Some(&Value::Array(vec![text("key1"), text("key2")])));
}

#[test]
fn people_test_with_modifiers() {
    let mp = Mixpanel::init("test_token", None);

    let props = map(vec![("key1", text("value1"))]);

    let modifiers = Modifiers {
        ip: Some("1.2.3.4".to_string()),
        ignore_time: Some(true),
        ..Default::default()
    };

    let result = mp.people.set("test_user", props, Some(modifiers));
    assert_eq!(
        result,
        object(vec![
            ("$token", text("test_token")),
            ("$distinct_id", text("test_user")),
            ("$set", object(vec![("key1", text("value1"))])),
            ("$ip", text("1.2.3.4")),
            ("$ignore_time", Value::Bool(true)),
        ])
    );
}

#[test]
fn groups_test_set() {
    let mp = Mixpanel::init("test_token", None);
    let props = map(vec![("key1", text("value1"))]);

    let result = mp.groups.set("company", "Acme Inc", props, None);
    assert_eq!(
        result,
        object(vec![
            ("$token", text("test_token")),
            ("$group_key", text("company")),
            ("$group_id", text("Acme Inc")),
            ("$set", object(vec![("key1", text("value1"))])),
        ])
    );
}

#[test]
fn groups_test_set_once() {
    let mp = Mixpanel::init("test_token", None);
    let props = map(vec![("key1", text("value1"))]);

    let result = members_of(mp.groups.set_once("company", "Acme Inc", props, None));
    assert_eq!(result.get("$set_once"), Some(&object(vec![("key1", text("value1"))])));
    assert_eq!(result.get("$set"), None);
}

#[test]
fn test_delete_group() {
    let mp = Mixpanel::init("test_token", None);
    let result = mp.groups.delete_group("company", "Acme Inc", None);
    assert_eq!(
        result,
        object(vec![
            ("$token", text("test_token")),
            ("$group_key", text("company")),
            ("$group_id", text("Acme Inc")),
            ("$delete", text("")),
        ])
    );
}

#[test]
fn groups_test_remove() {
    let mp = Mixpanel::init("test_token", None);

    let props = map(vec![("products", text("anvil"))]);

    let result = members_of(mp.groups.remove("company", "Acme Inc", props, None));
    assert_eq!(result.get("$remove"), Some(&object(vec![("products", text("anvil"))])));
}

#[test]
fn groups_test_remove_multiple() {
    let mp = Mixpanel::init("test_token", None);

    let props = map(vec![("products", text("anvil")), ("customer_segments", text("coyotes"))]);

    let result = members_of(mp.groups.remove("company", "Acme Inc", props, None));
    assert_eq!(
        result.get("$remove"),
        Some(&object(vec![("products", text("anvil")), ("customer_segments", text("coyotes"))]))
    );
}

#[test]
fn groups_test_union() {
    let mp = Mixpanel::init("test_token", None);

    let products: Vec<Value> = vec![text("anvil")];
    let props = map(vec![("products", Value::Array(products.clone()))]);

    let result = members_of(mp.groups.union("company", "Acme Inc", props, None));
    assert_eq!(result.get("$union"), Some(&object(vec![("products", Value::Array(products))])));
}

#[test]
fn test_union_multiple() {
    let mp = Mixpanel::init("test_token", None);

    let products: Vec<Value> = vec![text("anvil")];
    let segments: Vec<Value> = vec![text("coyotes")];
    let props = map(vec![
        ("products", Value::Array(products.clone())),
        ("customer_segments", Value::Array(segments.clone())),
    ]);

    let result = members_of(mp.groups.union("company", "Acme Inc", props, None));
    assert_eq!(
        result.get("$union"),
        Some(&object(vec![
            ("products", Value::Array(products)),
            ("customer_segments", Value::Array(segments)),
        ]))
    );
}

#[test]
fn groups_test_unset() {
    let mp = Mixpanel::init("test_token", None);

    let props = vec!["products".to_string()];

    let result = members_of(mp.groups.unset("company", "Acme Inc", props, None));
    assert_eq!(result.get("$unset"), Some(&Value::Array(vec![text("products")])));
}

#[test]
fn groups_test_unset_multiple() {
    let mp = Mixpanel::init("test_token", None);

    let props = vec!["products".to_string(), "customer_segments".to_string()];

    let result = members_of(mp.groups.unset("company", "Acme Inc", props, None));
    assert_eq!(
        result.get("$unset"),
        Some(&Value::Array(vec![text("products"), text("customer_segments")]))
    );
}

#[test]
fn groups_test_with_modifiers() {
    let mp = Mixpanel::init("test_token", None);

    let props = map(vec![("key1", text("value1"))]);

    let modifiers = Modifiers {
        ip: Some("1.2.3.4".to_string()),
        ignore_time: Some(true),
        ..Default::default()
    };

    let result = members_of(mp.groups.set("company", "Acme Inc", props, Some(modifiers)));
    assert_eq!(result.len(), 6);
    assert_eq!(result.get("$ip"), Some(&text("1.2.3.4")));
    assert_eq!(result.get("$ignore_time"), Some(&Value::Bool(true)));
    assert_eq!(result.get("$group_key"), Some(&text("company")));
}

#[test]
fn test_increment_numbers() {
    let mp = Mixpanel::init("test_token", None);
    let half = Value::Number(Number::Float(0.5f64.to_bits()));
    let props = map(vec![("score", half.clone()), ("n", Value::Number(Number::PosInt(2)))]);
    let result = mp.people.increment_numbers("test_user", props, None);
    assert_eq!(
        result,
        object(vec![
            ("$token", text("test_token")),
            ("$distinct_id", text("test_user")),
            ("$add", object(vec![("score", half), ("n", Value::Number(Number::PosInt(2)))])),
        ])
    );
}
