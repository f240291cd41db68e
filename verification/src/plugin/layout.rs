use crate::json::{lemma_object_view, Number, Value, ValueView};
use crate::plugin::persistence::{
    string_view, PersistenceError, PersistentData, PersistentDataView,
};
use crate::props::{distinct_keys, object_map, PropertyMap};
use crate::timers::{all_stamps, lemma_stamps_round_trip, unstamped, TimerMap};
use vstd::prelude::*;

verus! {

/// What is said of a stored record that does not have the layout.
pub const BAD_LAYOUT: &'static str = "the stored record does not have the expected layout";

/// The member of an object with the given name.
pub open spec fn member(m: Map<Seq<char>, ValueView>, name: Seq<char>) -> Option<ValueView> {
    if m.contains_key(name) {
        Some(m[name])
    } else {
        None
    }
}

/// An optional string as a member holds it: a missing member and null
/// stand for none. The outer `None` says that the member holds neither.
pub open spec fn optional_text(v: Option<ValueView>) -> Option<Option<Seq<char>>> {
    match v {
        None => Some(None),
        Some(ValueView::Null) => Some(None),
        Some(ValueView::String(s)) => Some(Some(s)),
        _ => None,
    }
}

/// An optional time stamp as a member holds it: a missing member and null
/// stand for none. The outer `None` says that the member holds neither.
pub open spec fn optional_stamp(v: Option<ValueView>) -> Option<Option<u64>> {
    match v {
        None => Some(None),
        Some(ValueView::Null) => Some(None),
        Some(w) => if crate::timers::is_stamp(w) {
            Some(Some(choose|t: u64| w == crate::timers::stamp_value(t)))
        } else {
            None
        },
    }
}

/// The record that a JSON value holds: an object with the members
/// `distinct_id` and `alias`, each a string, null or missing;
/// `event_timers`, an object of time stamps; `properties`, an object; and
/// `store_expires_at`, a time stamp, null or missing. Other members do not
/// count. `None` says that the value does not have this layout.
pub open spec fn decoded(v: ValueView) -> Option<PersistentDataView> {
    let m = object_map(v);
    let distinct_id = optional_text(member(m, "distinct_id"@));
    let alias = optional_text(member(m, "alias"@));
    let expires = optional_stamp(member(m, "store_expires_at"@));
    if v is Object && distinct_id is Some && alias is Some && expires is Some && m.contains_key(
        "event_timers"@,
    ) && m["event_timers"@] is Object && all_stamps(object_map(m["event_timers"@]))
        && m.contains_key("properties"@) && m["properties"@] is Object {
        Some(
            PersistentDataView {
                distinct_id: distinct_id->Some_0,
                alias: alias->Some_0,
                event_timers: unstamped(object_map(m["event_timers"@])),
                properties: object_map(m["properties"@]),
                store_expires_at: expires->Some_0,
            },
        )
    } else {
        None
    }
}

/// The names of the members of a stored record differ from one another.
pub proof fn lemma_member_names()
    ensures
        "distinct_id"@ != "alias"@,
        "distinct_id"@ != "event_timers"@,
        "distinct_id"@ != "properties"@,
        "distinct_id"@ != "store_expires_at"@,
        "alias"@ != "event_timers"@,
        "alias"@ != "properties"@,
        "alias"@ != "store_expires_at"@,
        "event_timers"@ != "properties"@,
        "event_timers"@ != "store_expires_at"@,
        "properties"@ != "store_expires_at"@,
{
    reveal_strlit("distinct_id");
    reveal_strlit("alias");
    reveal_strlit("event_timers");
    reveal_strlit("properties");
    reveal_strlit("store_expires_at");
    assert("distinct_id"@.len() == 11);
    assert("alias"@.len() == 5);
    assert("event_timers"@.len() == 12);
    assert("properties"@.len() == 10);
    assert("store_expires_at"@.len() == 16);
}

/// The value that holds an optional string.
fn text_or_null(s: &Option<String>) -> (r: Value)
    ensures
        optional_text(Some(r@)) == Some(string_view(*s)),
        r@ is Null || r@ is String,
{
    match s {
        Some(s) => Value::String(s.clone()),
        None => Value::Null,
    }
}

/// The optional string that a member holds.
fn read_text(v: Option<Value>) -> (r: Result<Option<String>, ()>)
    ensures
        match optional_text(crate::plugin::persistence::option_view(v)) {
            Some(s) => r is Ok && string_view(r->Ok_0) == s,
            None => r is Err,
        },
{
    match v {
        None => Ok(None),
        Some(Value::Null) => Ok(None),
        Some(Value::String(s)) => Ok(Some(s)),
        _ => Err(()),
    }
}

/// The optional time stamp that a member holds.
fn read_stamp(v: Option<Value>) -> (r: Result<Option<u64>, ()>)
    ensures
        match optional_stamp(crate::plugin::persistence::option_view(v)) {
            Some(t) => r is Ok && r->Ok_0 == t,
            None => r is Err,
        },
{
    match v {
        None => Ok(None),
        Some(Value::Null) => Ok(None),
        Some(Value::Number(Number::PosInt(n))) => {
            proof {
                let w = Value::Number(Number::PosInt(n))@;
                assert(w == crate::timers::stamp_value(n));
                let t = choose|t: u64| w == crate::timers::stamp_value(t);
                assert(crate::timers::stamp_value(t) == crate::timers::stamp_value(n));
            }
            Ok(Some(n))
        },
        Some(other) => {
            proof {
                if crate::timers::is_stamp(other@) {
                    let t = choose|t: u64| other@ == crate::timers::stamp_value(t);
                    assert(other@ is Number);
                }
            }
            Err(())
        },
    }
}

impl PersistentData {
    /// The record as it is written: an object with the five members, in
    /// which none stands for null. Reading it gives the record back.
    pub fn to_value(&self) -> (r: Value)
        ensures
            r@ is Object,
            distinct_keys(r@->Object_0),
            decoded(r@) == Some(self@),
    {
        let timers = self.event_timers.to_properties();
        let properties = self.properties.duplicate();
        let expires = match self.store_expires_at {
            Some(t) => Value::Number(Number::PosInt(t)),
            None => Value::Null,
        };
        proof {
            lemma_member_names();
            lemma_stamps_round_trip(self.event_timers@);
            timers.lemma_members();
            properties.lemma_members();
            match self.store_expires_at {
                Some(t) => {
                    assert(expires@ == crate::timers::stamp_value(t));
                    let u = choose|u: u64| expires@ == crate::timers::stamp_value(u);
                    assert(crate::timers::stamp_value(u) == crate::timers::stamp_value(t));
                },
                None => {},
            }
        }
        let mut record = PropertyMap::new();
        record.insert("distinct_id".to_owned(), text_or_null(&self.distinct_id));
        record.insert("alias".to_owned(), text_or_null(&self.alias));
        record.insert("event_timers".to_owned(), timers.into_value());
        record.insert("properties".to_owned(), properties.into_value());
        record.insert("store_expires_at".to_owned(), expires);
        proof {
            record.lemma_members();
        }
        let r = record.into_value();
        proof {
            assert(decoded(r@)->Some_0.event_timers =~= self@.event_timers);
        }
        r
    }

    /// The record that a JSON value holds, or the error that says that it
    /// does not have the layout.
    pub fn from_value(v: Value) -> (r: Result<PersistentData, PersistenceError>)
        ensures
            match decoded(v@) {
                Some(d) => r is Ok && r->Ok_0@ == d,
                None => r is Err && (r->Err_0 matches PersistenceError::SerdeError(m) && m@
                    == BAD_LAYOUT@),
            },
    {
        let members = match v {
            Value::Object(members) => members,
            _ => {
                return Err(PersistenceError::SerdeError(BAD_LAYOUT.to_owned()));
            },
        };
        proof {
            lemma_object_view(members);
            lemma_member_names();
        }
        let mut record = PropertyMap::from_members(members);
        let ghost m = record@;
        let distinct_id = read_text(record.remove("distinct_id"));
        let alias = read_text(record.remove("alias"));
        let expires = read_stamp(record.remove("store_expires_at"));
        let timers = match record.remove("event_timers") {
            Some(Value::Object(members)) => {
                proof {
                    lemma_object_view(members);
                }
                TimerMap::from_properties(PropertyMap::from_members(members))
            },
            _ => None,
        };
        let properties = match record.remove("properties") {
            Some(Value::Object(members)) => {
                proof {
                    lemma_object_view(members);
                }
                Some(PropertyMap::from_members(members))
            },
            _ => None,
        };
        match (distinct_id, alias, expires, timers, properties) {
            (
                Ok(distinct_id),
                Ok(alias),
                Ok(store_expires_at),
                Some(event_timers),
                Some(properties),
            ) => Ok(
                PersistentData { distinct_id, alias, event_timers, properties, store_expires_at },
            ),
            _ => Err(PersistenceError::SerdeError(BAD_LAYOUT.to_owned())),
        }
    }
}

/// The record to start from: the one that the file holds unless it has
/// expired at `now`; a fresh one where there is no file, where it could
/// not be read, or where what it holds does not have the layout.
pub open spec fn loaded_record(
    stored: Result<Option<Value>, PersistenceError>,
    now: u64,
) -> PersistentDataView {
    match stored {
        Ok(Some(v)) => match decoded(v@) {
            Some(d) => d.loaded(now),
            None => PersistentDataView::empty(),
        },
        _ => PersistentDataView::empty(),
    }
}

} // verus!
