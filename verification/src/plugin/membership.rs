use crate::json::{
    contains_value, items_duplicate, items_view, lemma_array_view, lemma_object_view,
    members_view, without, without_value, MemberView, Value, ValueView,
};
use crate::plugin::error::Error;
use crate::plugin::people::{
    as_lists, profile_outcome, without_reserved, REMOVE_ACTION, SET_ACTION, UNION_ACTION,
};
use crate::plugin::persistence::{
    option_view, options_days, options_persistent, PersistentDataView, RegisterOptions,
};
use crate::plugin::state::{single, MixpanelState};
use crate::props::{members_to_map, PropertyMap};
use vstd::prelude::*;

verus! {

/// What `set_group` says of ids that it does not take.
pub const INVALID_GROUP_IDS: &'static str = "group_ids must be an array or a single string/number";

/// What `add_group` and `remove_group` say of an id that they do not take.
pub const INVALID_GROUP_ID: &'static str = "group_id must be a single string/number";

/// The ids that a value of `set_group` stands for: those of an array, or
/// the one string or number.
pub open spec fn group_ids_of(v: ValueView) -> Option<Seq<ValueView>> {
    match v {
        ValueView::Array(items) => Some(items),
        ValueView::String(_) => Some(seq![v]),
        ValueView::Number(_) => Some(seq![v]),
        _ => None,
    }
}

/// Whether a value is one group id: a string or a number.
pub open spec fn is_group_id(v: ValueView) -> bool {
    v is String || v is Number
}

/// The group ids that are stored under a key and visible at `now`: none
/// where the property is not set or is no array.
pub open spec fn stored_groups(store: PersistentDataView, group_key: Seq<char>, now: u64) -> Seq<
    ValueView,
> {
    match store.visible_property(group_key, now) {
        Some(ValueView::Array(items)) => items,
        _ => Seq::empty(),
    }
}

/// The map of an object with one member holds that member alone.
pub proof fn lemma_one_member(key: Seq<char>, value: ValueView)
    ensures
        members_to_map(seq![MemberView { key, value }]) == single(key, value),
{
    let m = seq![MemberView { key, value }];
    assert(m.drop_last() =~= Seq::<MemberView>::empty());
    assert(members_to_map(m.drop_last()) =~= Map::<Seq<char>, ValueView>::empty());
}

impl MixpanelState {
    /// The ids that a value of `set_group` stands for.
    fn group_id_list(group_ids: Value) -> (r: Option<Vec<Value>>)
        ensures
            match group_ids_of(group_ids@) {
                Some(ids) => r is Some && items_view(r->Some_0@) == ids,
                None => r is None,
            },
    {
        match group_ids {
            Value::Array(arr) => {
                proof {
                    lemma_array_view(arr);
                }
                Some(arr)
            },
            Value::String(s) => {
                let mut ids: Vec<Value> = Vec::new();
                ids.push(Value::String(s));
                proof {
                    assert(items_view(ids@) =~= seq![group_ids@]);
                }
                Some(ids)
            },
            Value::Number(n) => {
                let mut ids: Vec<Value> = Vec::new();
                ids.push(Value::Number(n));
                proof {
                    assert(items_view(ids@) =~= seq![group_ids@]);
                }
                Some(ids)
            },
            _ => None,
        }
    }

    /// The array of a copy of the given ids.
    fn id_array(ids: &Vec<Value>) -> (r: Value)
        ensures
            r@ == ValueView::Array(items_view(ids@)),
    {
        let copy = items_duplicate(ids);
        proof {
            lemma_array_view(copy);
        }
        Value::Array(copy)
    }

    /// The object with one member.
    fn one_member(key: &str, value: Value) -> (r: Value)
        ensures
            r@ == ValueView::Object(seq![MemberView { key: key@, value: value@ }]),
    {
        let mut members: Vec<(String, Value)> = Vec::new();
        members.push((key.to_owned(), value));
        proof {
            lemma_object_view(members);
            assert(members_view(members@) =~= seq![
                MemberView { key: key@, value: value@ },
            ]);
        }
        Value::Object(members)
    }

    /// Sets the groups of the user under `group_key`. `group_ids` is an
    /// array of ids, or one id that is a string or a number: anything else
    /// fails, and changes nothing. The ids are registered as a super
    /// property where the options say, and the update that sets them on
    /// the profile is handed back.
    pub fn set_group(
        &mut self,
        group_key: &str,
        group_ids: Value,
        options: Option<Value>,
        now: u64,
    ) -> (r: Result<Option<Value>, Error>)
        ensures
            match group_ids_of(group_ids@) {
                Some(ids) => final(self)@ == old(self)@.register(
                    single(group_key@, ValueView::Array(ids)),
                    options_persistent(option_view(options)),
                    options_days(option_view(options)),
                    now,
                ) && profile_outcome(
                    r,
                    old(self)@.store.distinct_id,
                    old(self)@.people_token(),
                    SET_ACTION@,
                    without_reserved(single(group_key@, ValueView::Array(ids))),
                ),
                None => r is Err && r->Err_0.is_usage(INVALID_GROUP_IDS@) && final(self)@ == old(
                    self,
                )@,
            },
    {
        let group_ids_array = match Self::group_id_list(group_ids) {
            Some(ids) => ids,
            None => {
                return Err(Error::MixpanelError(INVALID_GROUP_IDS.to_owned()));
            },
        };
        let mut props_map = PropertyMap::new();
        props_map.insert(group_key.to_owned(), Self::id_array(&group_ids_array));
        let register_options = RegisterOptions::parse_options(options);
        self.register_props(props_map, &register_options, now);
        proof {
            lemma_array_view(group_ids_array);
            lemma_one_member(group_key@, ValueView::Array(items_view(group_ids_array@)));
        }
        self.people.set(
            &self.persistence,
            Self::one_member(group_key, Value::Array(group_ids_array)),
            None,
        )
    }

    /// Adds one group id to those under `group_key`. The id is a string or
    /// a number: anything else fails, and changes nothing. Where the stored
    /// list does not hold the id yet, the list with the id is registered
    /// where the options say. The update that merges the id into the
    /// profile's list is handed back.
    pub fn add_group(
        &mut self,
        group_key: &str,
        group_id: Value,
        options: Option<Value>,
        now: u64,
    ) -> (r: Result<Option<Value>, Error>)
        ensures
            if is_group_id(group_id@) {
                let current = stored_groups(old(self)@.store, group_key@, now);
                final(self)@ == (if current.contains(group_id@) {
                    old(self)@
                } else {
                    old(self)@.register(
                        single(group_key@, ValueView::Array(current.push(group_id@))),
                        options_persistent(option_view(options)),
                        options_days(option_view(options)),
                        now,
                    )
                }) && profile_outcome(
                    r,
                    old(self)@.store.distinct_id,
                    old(self)@.people_token(),
                    UNION_ACTION@,
                    as_lists(
                        without_reserved(single(group_key@, ValueView::Array(seq![group_id@]))),
                    ),
                )
            } else {
                r is Err && r->Err_0.is_usage(INVALID_GROUP_ID@)
                    && final(self)@ == old(self)@
            },
    {
        let group_id_to_add = match group_id {
            Value::String(s) => Value::String(s),
            Value::Number(n) => Value::Number(n),
            _ => {
                return Err(Error::MixpanelError(INVALID_GROUP_ID.to_owned()));
            },
        };
        let mut current_groups: Vec<Value> = match self.persistence.get_property(group_key, now) {
            Some(Value::Array(items)) => {
                proof {
                    lemma_array_view(items);
                }
                items
            },
            _ => Vec::new(),
        };
        proof {
            assert(items_view(current_groups@) =~= stored_groups(
                old(self)@.store,
                group_key@,
                now,
            ));
        }
        if !contains_value(&current_groups, &group_id_to_add) {
            let ghost before = items_view(current_groups@);
            current_groups.push(group_id_to_add.duplicate());
            proof {
                assert(items_view(current_groups@) =~= before.push(group_id@));
                lemma_array_view(current_groups);
            }
            let mut props_map = PropertyMap::new();
            props_map.insert(group_key.to_owned(), Value::Array(current_groups));
            let register_options = RegisterOptions::parse_options(options);
            self.register_props(props_map, &register_options, now);
        }
        let mut one: Vec<Value> = Vec::new();
        one.push(group_id_to_add);
        proof {
            lemma_array_view(one);
            assert(items_view(one@) =~= seq![group_id@]);
            lemma_one_member(group_key@, ValueView::Array(seq![group_id@]));
        }
        self.people.union(&self.persistence, Self::one_member(group_key, Value::Array(one)), None)
    }

    /// Removes one group id from those under `group_key`. The id is a
    /// string or a number: anything else fails, and changes nothing. Where
    /// the stored list holds the id, the list without it is registered
    /// where the options say, or the property is removed where no id is
    /// left; and the update that removes the id from the profile's list is
    /// handed back. Otherwise nothing changes and nothing is sent.
    pub fn remove_group(
        &mut self,
        group_key: &str,
        group_id: Value,
        options: Option<Value>,
        now: u64,
    ) -> (r: Result<Option<Value>, Error>)
        ensures
            if is_group_id(group_id@) {
                let current = stored_groups(old(self)@.store, group_key@, now);
                let kept = without(current, group_id@);
                if kept.len() < current.len() {
                    final(self)@ == (if kept.len() == 0 {
                        old(self)@.unregister(group_key@, options_persistent(option_view(options)))
                    } else {
                        old(self)@.register(
                            single(group_key@, ValueView::Array(kept)),
                            options_persistent(option_view(options)),
                            options_days(option_view(options)),
                            now,
                        )
                    }) && profile_outcome(
                        r,
                        old(self)@.store.distinct_id,
                        old(self)@.people_token(),
                        REMOVE_ACTION@,
                        without_reserved(single(group_key@, group_id@)),
                    )
                } else {
                    r == Ok::<Option<Value>, Error>(None) && final(self)@ == old(self)@
                }
            } else {
                r is Err && r->Err_0.is_usage(INVALID_GROUP_ID@)
                    && final(self)@ == old(self)@
            },
    {
        let group_id_to_remove = match group_id {
            Value::String(s) => Value::String(s),
            Value::Number(n) => Value::Number(n),
            _ => {
                return Err(Error::MixpanelError(INVALID_GROUP_ID.to_owned()));
            },
        };
        let mut group_list_updated = false;
        match self.persistence.get_property(group_key, now) {
            Some(Value::Array(items)) => {
                proof {
                    lemma_array_view(items);
                    assert(items_view(items@) =~= stored_groups(
                        old(self)@.store,
                        group_key@,
                        now,
                    ));
                }
                let initial_len = items.len();
                let current_groups = without_value(items, &group_id_to_remove);
                if current_groups.len() < initial_len {
                    group_list_updated = true;
                    let register_options = RegisterOptions::parse_options(options);
                    if current_groups.len() == 0 {
                        self.unregister_from(group_key, &register_options);
                    } else {
                        proof {
                            lemma_array_view(current_groups);
                        }
                        let mut props_map = PropertyMap::new();
                        props_map.insert(group_key.to_owned(), Value::Array(current_groups));
                        self.register_props(props_map, &register_options, now);
                    }
                }
            },
            _ => {
                proof {
                    assert(stored_groups(old(self)@.store, group_key@, now).len() == 0);
                }
            },
        }
        if group_list_updated {
            proof {
                lemma_one_member(group_key@, group_id@);
            }
            self.people.remove(
                &self.persistence,
                Self::one_member(group_key, group_id_to_remove),
                None,
            )
        } else {
            Ok(None)
        }
    }
}

} // verus!
