use crate::client::Modifiers;
use crate::json::{Number, Value, ValueView};
use crate::props::{natural, object_map, text, PropertyMap};
use crate::text::since_epoch_millis;
use vstd::prelude::*;

verus! {

/// The largest time stamp that is read as seconds.
pub const MAX_SECONDS: u64 = 9999999999;

/// A time stamp in seconds since the epoch: one above ten digits is taken
/// to be in milliseconds and divided by 1000.
pub fn ensure_timestamp(time: Option<u64>) -> (r: Option<u64>)
    ensures
        r == match time {
            Some(t) => Some(
                if t > MAX_SECONDS {
                    t / 1000
                } else {
                    t
                },
            ),
            None => None,
        },
{
    match time {
        Some(t) => if t > MAX_SECONDS {
            Some(t / 1000)
        } else {
            Some(t)
        },
        None => None,
    }
}

/// The milliseconds since the epoch on the system clock; 0 where the
/// clock stands before the epoch.
pub fn current_time_millis() -> u64 {
    millis_or_zero(since_epoch_millis())
}

/// The seconds since the epoch on the system clock: the whole seconds of
/// the time that the clock gives in milliseconds.
pub fn now() -> (r: u64)
    ensures
        exists|millis: u64| r == seconds(millis),
{
    let millis = millis_or_zero(since_epoch_millis());
    let r = seconds_of(millis);
    assert(r == seconds(millis));
    r
}

/// The time that a reading of the clock stands for: 0 for a clock that
/// stands before the epoch.
pub fn millis_or_zero(reading: Option<u64>) -> (r: u64)
    ensures
        r == match reading {
            Some(millis) => millis,
            None => 0,
        },
{
    match reading {
        Some(millis) => millis,
        None => 0,
    }
}

/// The whole seconds of a time in milliseconds.
pub open spec fn seconds(millis: u64) -> u64 {
    millis / 1000
}

/// The whole seconds of a time in milliseconds.
pub fn seconds_of(millis: u64) -> (r: u64)
    ensures
        r == seconds(millis),
{
    millis / 1000
}

/// The JSON number that holds a binary64 value, given by its bit pattern.
pub open spec fn float(bits: u64) -> ValueView {
    ValueView::Number(crate::json::NumberView::Float(bits as int))
}

/// Whether the modifiers add anything to a payload.
pub open spec fn modifies(m: Option<Modifiers>) -> bool {
    match m {
        Some(m) => m.ip is Some || m.ignore_time is Some || m.time is Some || m.ignore_alias is Some
            || (m.latitude is Some && m.longitude is Some),
        None => false,
    }
}

/// The members of a payload after the modifiers have been merged in. A
/// latitude or a longitude alone is left out.
pub open spec fn merged_modifiers(
    data: Map<Seq<char>, ValueView>,
    m: Modifiers,
) -> Map<Seq<char>, ValueView> {
    let d1 = match m.ip {
        Some(ip) => data.insert("$ip"@, text(ip@)),
        None => data,
    };
    let d2 = match m.ignore_time {
        Some(b) => d1.insert("$ignore_time"@, ValueView::Bool(b)),
        None => d1,
    };
    let d3 = match m.time {
        Some(t) => d2.insert("$time"@, natural(t)),
        None => d2,
    };
    let d4 = match m.ignore_alias {
        Some(b) => d3.insert("$ignore_alias"@, ValueView::Bool(b)),
        None => d3,
    };
    if m.latitude is Some && m.longitude is Some {
        d4.insert("$latitude"@, float(m.latitude->Some_0)).insert(
            "$longitude"@,
            float(m.longitude->Some_0),
        )
    } else {
        d4
    }
}

/// Inserts the modifiers into a map of members.
pub fn apply_modifiers(map: &mut PropertyMap, modifiers: Modifiers)
    ensures
        final(map)@ == merged_modifiers(old(map)@, modifiers),
{
    if let Some(ip) = modifiers.ip {
        map.insert("$ip".to_owned(), Value::String(ip));
    }
    if let Some(ignore_time) = modifiers.ignore_time {
        map.insert("$ignore_time".to_owned(), Value::Bool(ignore_time));
    }
    if let Some(time) = modifiers.time {
        map.insert("$time".to_owned(), Value::Number(Number::PosInt(time)));
    }
    if let Some(ignore_alias) = modifiers.ignore_alias {
        map.insert("$ignore_alias".to_owned(), Value::Bool(ignore_alias));
    }
    match (modifiers.latitude, modifiers.longitude) {
        (Some(lat), Some(lon)) => {
            map.insert("$latitude".to_owned(), Value::Number(Number::Float(lat)));
            map.insert("$longitude".to_owned(), Value::Number(Number::Float(lon)));
        },
        _ => {},
    }
}

/// Merges the modifiers into a payload, which has to be an object where the
/// modifiers add anything. A payload that they add nothing to comes back as
/// it is; otherwise the result is an object that holds no key twice.
pub fn merge_modifiers(data: Value, modifiers: Option<Modifiers>) -> (r: Value)
    requires
        modifies(modifiers) ==> data@ is Object,
    ensures
        !modifies(modifiers) ==> r@ == data@,
        modifies(modifiers) ==> r@ is Object && crate::props::distinct_keys(r@->Object_0)
            && object_map(r@) == merged_modifiers(object_map(data@), modifiers->Some_0),
{
    match modifiers {
        Some(m) => {
            let touches = m.ip.is_some() || m.ignore_time.is_some() || m.time.is_some()
                || m.ignore_alias.is_some() || (m.latitude.is_some() && m.longitude.is_some());
            if !touches {
                return data;
            }
            match data {
                Value::Object(members) => {
                    proof {
                        crate::json::lemma_object_view(members);
                    }
                    let mut map = PropertyMap::from_members(members);
                    apply_modifiers(&mut map, m);
                    proof {
                        map.lemma_members();
                    }
                    map.into_value()
                },
                other => other,
            }
        },
        None => data,
    }
}

} // verus!
