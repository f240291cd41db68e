use mixpanel_rs::json::{Number, Value};
use mixpanel_rs::props::PropertyMap;
use mixpanel_rs::utils::{
    current_time_millis, ensure_timestamp, merge_modifiers, now, seconds_of,
};
use mixpanel_rs::Modifiers;

fn test_data() -> Value {
    Value::Object(vec![("test".to_string(), Value::String("value".to_string()))])
}

fn members_of(v: Value) -> PropertyMap {
    match v {
        Value::Object(members) => PropertyMap::from_members(members),
        other => panic!("not an object: {:?}", other),
    }
}

fn float(x: f64) -> Value {
    Value::Number(Number::Float(x.to_bits()))
}

fn as_f64(v: &Value) -> f64 {
    match v {
        Value::Number(Number::Float(bits)) => f64::from_bits(*bits),
        other => panic!("not a float: {:?}", other),
    }
}

#[test]
fn test_ensure_timestamp() {
    assert_eq!(ensure_timestamp(Some(1234567890)), Some(1234567890));
    assert_eq!(ensure_timestamp(Some(1234567890123)), Some(1234567890));
    assert_eq!(ensure_timestamp(None), None);
}

#[test]
fn test_ensure_timestamp_boundary() {
    assert_eq!(ensure_timestamp(Some(9999999999)), Some(9999999999));
    assert_eq!(ensure_timestamp(Some(10000000000)), Some(10000000));
    assert_eq!(ensure_timestamp(Some(0)), Some(0));
}

#[test]
fn test_merge_modifiers() {
    let data = test_data();

    let modifiers = Modifiers {
        ip: Some("1.2.3.4".to_string()),
        ignore_time: Some(true),
        time: Some(1234567890),
        ignore_alias: Some(true),
        latitude: Some(40.7127753f64.to_bits()),
        longitude: Some((-74.0059728f64).to_bits()),
    };

    let result = merge_modifiers(data, Some(modifiers));
    let obj = members_of(result);

    assert_eq!(obj.get("$ip").unwrap().as_str().unwrap(), "1.2.3.4");
    assert!(obj.get("$ignore_time").unwrap().as_bool().unwrap());
    assert_eq!(obj.get("$time").unwrap().as_u64().unwrap(), 1234567890);
    assert!(obj.get("$ignore_alias").unwrap().as_bool().unwrap());
    assert_eq!(as_f64(obj.get("$latitude").unwrap()), 40.7127753);
    assert_eq!(as_f64(obj.get("$longitude").unwrap()), -74.0059728);
    assert_eq!(obj.get("test"), Some(&Value::String("value".to_string())));
}

#[test]
fn test_merge_modifiers_ip_only() {
    let data = test_data();

    let modifiers = Modifiers { ip: Some("1.2.3.4".to_string()), ..Default::default() };

    let result = merge_modifiers(data, Some(modifiers));
    let obj = members_of(result);

    assert_eq!(obj.get("$ip").unwrap().as_str().unwrap(), "1.2.3.4");
    assert!(obj.get("$ignore_time").is_none());
    assert!(obj.get("$time").is_none());
    assert!(obj.get("$ignore_alias").is_none());
    assert!(obj.get("$latitude").is_none());
    assert!(obj.get("$longitude").is_none());
}

#[test]
fn test_merge_modifiers_ignore_time_only() {
    let data = test_data();

    let modifiers = Modifiers { ignore_time: Some(true), ..Default::default() };

    let result = merge_modifiers(data, Some(modifiers));
    let obj = members_of(result);

    assert!(obj.get("$ip").is_none());
    assert!(obj.get("$ignore_time").unwrap().as_bool().unwrap());
    assert!(obj.get("$time").is_none());
    assert!(obj.get("$ignore_alias").is_none());
    assert!(obj.get("$latitude").is_none());
    assert!(obj.get("$longitude").is_none());
}

#[test]
fn test_merge_modifiers_time_only() {
    let data = test_data();

    let modifiers = Modifiers { time: Some(1234567890), ..Default::default() };

    let result = merge_modifiers(data, Some(modifiers));
    let obj = members_of(result);

    assert!(obj.get("$ip").is_none());
    assert!(obj.get("$ignore_time").is_none());
    assert_eq!(obj.get("$time").unwrap().as_u64().unwrap(), 1234567890);
    assert!(obj.get("$ignore_alias").is_none());
    assert!(obj.get("$latitude").is_none());
    assert!(obj.get("$longitude").is_none());
}

#[test]
fn test_merge_modifiers_ignore_alias_only() {
    let data = test_data();

    let modifiers = Modifiers { ignore_alias: Some(true), ..Default::default() };

    let result = merge_modifiers(data, Some(modifiers));
    let obj = members_of(result);

    assert!(obj.get("$ip").is_none());
    assert!(obj.get("$ignore_time").is_none());
    assert!(obj.get("$time").is_none());
    assert!(obj.get("$ignore_alias").unwrap().as_bool().unwrap());
    assert!(obj.get("$latitude").is_none());
    assert!(obj.get("$longitude").is_none());
}

#[test]
fn test_merge_modifiers_geo_only() {
    let data = test_data();

    let modifiers = Modifiers {
        latitude: Some(40.7127753f64.to_bits()),
        longitude: Some((-74.0059728f64).to_bits()),
        ..Default::default()
    };

    let result = merge_modifiers(data, Some(modifiers));
    let obj = members_of(result);

    assert!(obj.get("$ip").is_none());
    assert!(obj.get("$ignore_time").is_none());
    assert!(obj.get("$time").is_none());
    assert!(obj.get("$ignore_alias").is_none());
    assert_eq!(as_f64(obj.get("$latitude").unwrap()), 40.7127753);
    assert_eq!(as_f64(obj.get("$longitude").unwrap()), -74.0059728);
    assert_eq!(obj.get("$latitude"), Some(&float(40.7127753)));
}

#[test]
fn test_merge_modifiers_latitude_only_should_not_add_geo() {
    let data = test_data();

    let modifiers = Modifiers {
        latitude: Some(40.7127753f64.to_bits()),
        longitude: None,
        ..Default::default()
    };

    let result = merge_modifiers(data, Some(modifiers));
    let obj = members_of(result);

    assert!(obj.get("$latitude").is_none());
    assert!(obj.get("$longitude").is_none());
}

#[test]
fn test_merge_modifiers_longitude_only_should_not_add_geo() {
    let data = test_data();

    let modifiers = Modifiers {
        latitude: None,
        longitude: Some((-74.0059728f64).to_bits()),
        ..Default::default()
    };

    let result = merge_modifiers(data, Some(modifiers));
    let obj = members_of(result);

    assert!(obj.get("$latitude").is_none());
    assert!(obj.get("$longitude").is_none());
}

#[test]
fn test_merge_modifiers_none() {
    let data = test_data();

    let result = merge_modifiers(data.clone(), None);

    // Should return data unchanged
    assert_eq!(result, data);
}

#[test]
fn test_merge_modifiers_replaces_a_member() {
    let data = Value::Object(vec![
        ("$ip".to_string(), Value::String("0.0.0.0".to_string())),
        ("test".to_string(), Value::String("value".to_string())),
    ]);
    let modifiers = Modifiers { ip: Some("1.2.3.4".to_string()), ..Default::default() };
    let obj = members_of(merge_modifiers(data, Some(modifiers)));
    assert_eq!(obj.len(), 2);
    assert_eq!(obj.get("$ip"), Some(&Value::String("1.2.3.4".to_string())));
}

#[test]
fn test_merge_modifiers_without_fields_keeps_any_value() {
    let result = merge_modifiers(Value::Bool(true), Some(Modifiers::default()));
    assert_eq!(result, Value::Bool(true));
}

#[test]
fn test_clock_is_past_2020() {
    let seconds = now();
    let millis = current_time_millis();
    assert!(seconds > 1_577_836_800);
    assert!(millis / 1000 >= seconds);
    assert!(millis / 1000 - seconds < 5);
    let client_seconds = mixpanel_rs::Mixpanel::now();
    assert!(client_seconds >= seconds);
    assert!(client_seconds - seconds < 5);
}

#[test]
fn test_millis_or_zero() {
    assert_eq!(mixpanel_rs::utils::millis_or_zero(None), 0);
    assert_eq!(mixpanel_rs::utils::millis_or_zero(Some(0)), 0);
    assert_eq!(mixpanel_rs::utils::millis_or_zero(Some(1_700_000_000_123)), 1_700_000_000_123);
}

#[test]
fn test_seconds_of() {
    assert_eq!(seconds_of(0), 0);
    assert_eq!(seconds_of(999), 0);
    assert_eq!(seconds_of(1000), 1);
    assert_eq!(seconds_of(1_700_000_000_999), 1_700_000_000);
    assert_eq!(seconds_of(u64::MAX), 18_446_744_073_709_551);
    assert!(now() <= seconds_of(u64::MAX));
    assert!(mixpanel_rs::Mixpanel::now() <= seconds_of(u64::MAX));
}
