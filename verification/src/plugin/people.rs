use crate::json::{lemma_object_view, members_view, MemberView, Value, ValueView};
use crate::people::{is_update, update_members};
use crate::plugin::error::Error;
use crate::plugin::persistence::{option_view, Persistence};
use crate::props::{distinct_keys, lemma_map_push, members_to_map, text, PropertyMap};
use crate::text::{has_prefix, joined, joined3, str_eq, str_starts_with};
use vstd::prelude::*;

verus! {

pub const SET_ACTION: &'static str = "$set";

pub const SET_ONCE_ACTION: &'static str = "$set_once";

pub const UNSET_ACTION: &'static str = "$unset";

pub const ADD_ACTION: &'static str = "$add";

pub const APPEND_ACTION: &'static str = "$append";

pub const REMOVE_ACTION: &'static str = "$remove";

pub const UNION_ACTION: &'static str = "$union";

pub const DELETE_ACTION: &'static str = "$delete";

/// What `set` says of an argument that it does not take.
pub const INVALID_SET: &'static str =
    "Invalid 'prop' argument for people.set. Must be String or Object.";

/// What `set_once` says of an argument that it does not take.
pub const INVALID_SET_ONCE: &'static str =
    "Invalid 'prop' argument for people.set_once. Must be String or Object.";

/// What `append` says of an argument that it does not take.
pub const INVALID_APPEND: &'static str =
    "Invalid 'list_name' argument for people.append. Must be String or Object.";

/// What `remove` says of an argument that it does not take.
pub const INVALID_REMOVE: &'static str =
    "Invalid 'list_name' argument for people.remove. Must be String or Object.";

/// What `union` says of an argument that it does not take.
pub const INVALID_UNION: &'static str =
    "Invalid 'list_name' argument for people.union. Must be String or Object.";

/// What `unset` says of an argument that it does not take.
pub const INVALID_UNSET: &'static str =
    "Invalid 'prop' argument for people.unset. Must be String or Array of Strings.";

/// What `unset` says of an array that holds more than strings.
pub const INVALID_UNSET_ITEM: &'static str =
    "Invalid array element in people.unset. Must be strings.";

/// What `increment` says of an argument that it does not take.
pub const INVALID_INCREMENT: &'static str =
    "Invalid 'prop' argument for people.increment. Must be String or Object.";

/// What `increment` says of an amount that is no number.
pub const INVALID_AMOUNT: &'static str =
    "Invalid 'by' argument for people.increment. Must be a number.";

/// The prefix of an identity that stands for a device, not for a user.
pub const DEVICE_PREFIX: &'static str = "device:";

/// Whether an id stands for a device.
pub open spec fn is_device_id(id: Seq<char>) -> bool {
    has_prefix(id, DEVICE_PREFIX@)
}

/// Whether the identity is one that the caller gave.
pub open spec fn identified(distinct_id: Option<Seq<char>>) -> bool {
    distinct_id is Some && !is_device_id(distinct_id->Some_0)
}

/// Whether a property name is kept for the identity and may not be set on a
/// profile.
pub open spec fn is_reserved(name: Seq<char>) -> bool {
    name == "$distinct_id"@ || name == "$token"@ || name == "$device_id"@ || name == "$user_id"@
        || name == "$had_persisted_distinct_id"@
}

/// The properties without the reserved ones.
pub open spec fn without_reserved(m: Map<Seq<char>, ValueView>) -> Map<Seq<char>, ValueView> {
    Map::new(|k: Seq<char>| m.contains_key(k) && !is_reserved(k), |k: Seq<char>| m[k])
}

/// Whether an id stands for a device.
pub fn has_device_prefix(id: &str) -> (r: bool)
    ensures
        r == is_device_id(id@),
{
    str_starts_with(id, DEVICE_PREFIX)
}

/// The message for a property of `increment` that is no number.
pub open spec fn invalid_increment(key: Seq<char>) -> Seq<char> {
    "Invalid increment value for key '"@ + key + "'"@
}

/// The message for properties that are neither an object nor null.
pub open spec fn invalid_properties(action_name: Seq<char>) -> Seq<char> {
    "Properties for people."@ + action_name + " must be an object or null"@
}

/// The message for an action that does not exist.
pub open spec fn unknown_action(action: Seq<char>) -> Seq<char> {
    "Unknown People action: "@ + action
}

/// Whether `action` is one of the profile actions.
pub open spec fn is_action(action: Seq<char>) -> bool {
    action == SET_ACTION@ || action == SET_ONCE_ACTION@ || action == UNSET_ACTION@ || action
        == ADD_ACTION@ || action == APPEND_ACTION@ || action == REMOVE_ACTION@ || action
        == UNION_ACTION@ || action == DELETE_ACTION@
}

/// The names of the members as JSON strings, in order.
pub open spec fn member_names(members: Seq<MemberView>) -> Seq<ValueView> {
    Seq::new(members.len(), |i: int| text(members[i].key))
}

/// The first position at which a member's value is no number; the number
/// of members where there is none.
pub open spec fn first_not_numeric(members: Seq<MemberView>) -> int
    decreases members.len(),
{
    if members.len() == 0 {
        0
    } else if !members[0].value.is_number() {
        0
    } else {
        1 + first_not_numeric(members.drop_first())
    }
}

/// The body of the update that `action` sends for the given properties.
pub open spec fn action_body(action: Seq<char>, members: Seq<MemberView>) -> ValueView {
    if action == UNSET_ACTION@ {
        ValueView::Array(member_names(members))
    } else if action == DELETE_ACTION@ {
        text(""@)
    } else {
        ValueView::Object(members)
    }
}

/// What `send_request` owes for an action and properties. Nothing is sent
/// before the caller has given an identity. An action that does not exist is
/// an error, and so is an amount of `$add` that is no number. Otherwise
/// the update of the profile is handed back to be sent; the amounts of an
/// `$add` go as they were given.
pub open spec fn request_outcome(
    r: Result<Option<Value>, Error>,
    distinct_id: Option<Seq<char>>,
    token: Seq<char>,
    action: Seq<char>,
    members: Seq<MemberView>,
) -> bool {
    if !identified(distinct_id) {
        r == Ok::<Option<Value>, Error>(None)
    } else if !is_action(action) {
        r is Err && r->Err_0.is_usage(unknown_action(action))
    } else if action == ADD_ACTION@ && first_not_numeric(members) < members.len() {
        r is Err && r->Err_0.is_usage(
            invalid_increment(members[first_not_numeric(members)].key),
        )
    } else {
        r is Ok && r->Ok_0 is Some && is_update(
            r->Ok_0->Some_0@,
            update_members(
                token,
                "$distinct_id"@,
                distinct_id->Some_0,
                action,
                action_body(action, members),
                None,
            ),
        )
    }
}

/// The properties that an operation takes from its arguments: those of an
/// object without the reserved ones, or the one named by a string with the
/// value beside it (null where there is none), unless that name is
/// reserved. Anything else is not accepted.
pub open spec fn shorthand(prop: ValueView, to: Option<ValueView>) -> Option<
    Map<Seq<char>, ValueView>,
> {
    match prop {
        ValueView::Object(members) => Some(without_reserved(members_to_map(members))),
        ValueView::String(key) => if is_reserved(key) {
            Some(Map::empty())
        } else {
            Some(
                Map::<Seq<char>, ValueView>::empty().insert(
                    key,
                    match to {
                        Some(v) => v,
                        None => ValueView::Null,
                    },
                ),
            )
        },
        _ => None,
    }
}

/// What an operation owes once its properties are known: nothing is sent
/// for no properties; otherwise the request is prepared for them.
pub open spec fn profile_outcome(
    r: Result<Option<Value>, Error>,
    distinct_id: Option<Seq<char>>,
    token: Seq<char>,
    action: Seq<char>,
    props: Map<Seq<char>, ValueView>,
) -> bool {
    if props == Map::<Seq<char>, ValueView>::empty() {
        r == Ok::<Option<Value>, Error>(None)
    } else {
        exists|members: Seq<MemberView>|
            distinct_keys(members) && members_to_map(members) == props && request_outcome(
                r,
                distinct_id,
                token,
                action,
                members,
            )
    }
}

/// What an operation with the shorthand owes: an error with `message`
/// where the arguments are not accepted, else the outcome for the
/// properties.
pub open spec fn shorthand_outcome(
    r: Result<Option<Value>, Error>,
    distinct_id: Option<Seq<char>>,
    token: Seq<char>,
    action: Seq<char>,
    prop: ValueView,
    to: Option<ValueView>,
    message: Seq<char>,
) -> bool {
    match shorthand(prop, to) {
        Some(props) => profile_outcome(r, distinct_id, token, action, props),
        None => r is Err && r->Err_0.is_usage(message),
    }
}

/// The first position at which a member that is not reserved holds a value
/// that is no number; the number of members where there is none.
pub open spec fn first_non_number(members: Seq<MemberView>) -> int
    decreases members.len(),
{
    if members.len() == 0 {
        0
    } else if !is_reserved(members[0].key) && !members[0].value.is_number() {
        0
    } else {
        1 + first_non_number(members.drop_first())
    }
}

/// The list that a value of `union` stands for: an array as it is, any
/// other value as the array that holds it alone.
pub open spec fn as_list(v: ValueView) -> ValueView {
    if v is Array {
        v
    } else {
        ValueView::Array(seq![v])
    }
}

/// The properties with each value as a list.
pub open spec fn as_lists(m: Map<Seq<char>, ValueView>) -> Map<Seq<char>, ValueView> {
    Map::new(|k: Seq<char>| m.contains_key(k), |k: Seq<char>| as_list(m[k]))
}

/// The names that `unset` takes from an array: its strings that are not
/// reserved.
pub open spec fn unset_names(items: Seq<ValueView>) -> Map<Seq<char>, ValueView> {
    Map::new(
        |k: Seq<char>|
            !is_reserved(k) && exists|i: int| 0 <= i < items.len() && items[i] == text(k),
        |k: Seq<char>| ValueView::Null,
    )
}

/// Whether every item is a string.
pub open spec fn all_strings(items: Seq<ValueView>) -> bool {
    forall|i: int| 0 <= i < items.len() ==> items[i] is String
}

/// The profile operations of the local state. Each hands back the update
/// to send with GET to the profile endpoint, or `None` where nothing is to
/// be sent.
#[derive(Debug, Clone)]
pub struct MixpanelPeople {
    pub client: crate::people::MixpanelPeople,
}

impl MixpanelPeople {
    pub fn new(token: &str) -> (r: Self)
        ensures
            r.client.token@ == token@,
    {
        MixpanelPeople { client: crate::people::MixpanelPeople { token: token.to_owned() } }
    }

    /// Whether the caller has given an identity.
    pub fn identify_called(&self, store: &Persistence) -> (r: bool)
        ensures
            r == identified(store@.distinct_id),
    {
        match &store.data.distinct_id {
            Some(id) => !has_device_prefix(id.as_str()),
            None => false,
        }
    }

    /// Whether a property name is kept for the identity.
    pub fn is_reserved_property(&self, prop: &str) -> (r: bool)
        ensures
            r == is_reserved(prop@),
    {
        str_eq(prop, "$distinct_id") || str_eq(prop, "$token") || str_eq(prop, "$device_id")
            || str_eq(prop, "$user_id") || str_eq(prop, "$had_persisted_distinct_id")
    }

    /// The name of the first property whose value is no number, where
    /// there is one.
    fn not_numeric(properties: &PropertyMap) -> (r: Option<String>)
        ensures
            match r {
                Some(key) => first_not_numeric(properties.members()) < properties.members().len()
                    && key@ == properties.members()[first_not_numeric(
                    properties.members(),
                )].key,
                None => first_not_numeric(properties.members()) == properties.members().len(),
            },
    {
        let ghost members = properties.members();
        let n = properties.len();
        let mut i: usize = 0;
        proof {
            assert(members.skip(0) =~= members);
        }
        while i < n
            invariant
                i <= n,
                n == members.len(),
                members == properties.members(),
                first_not_numeric(members) == i + first_not_numeric(members.skip(i as int)),
            decreases n - i,
        {
            proof {
                assert(members.skip(i as int).drop_first() =~= members.skip(i + 1));
                assert(members.skip(i as int)[0] == members[i as int]);
            }
            if !properties.value_at(i).is_number() {
                return Some(properties.key_at(i).clone());
            }
            i += 1;
        }
        None
    }

    /// The names of the properties, in order.
    fn names(properties: PropertyMap) -> (r: Vec<String>)
        ensures
            crate::people::names_view(r@) == member_names(properties.members()),
    {
        let ghost incoming = properties.members();
        let members = properties.into_members();
        let mut names: Vec<String> = Vec::new();
        for entry in it: members
            invariant
                it.seq() == members@,
                incoming == members_view(members@),
                names.len() == it.index(),
                forall|j: int| 0 <= j < names.len() ==> names[j]@ == incoming[j].key,
        {
            names.push(entry.0);
        }
        proof {
            assert(crate::people::names_view(names@) =~= member_names(incoming));
        }
        names
    }

    /// Prepares the update of the profile for `action` with `properties`.
    pub fn send_request(&self, store: &Persistence, action: &str, properties: PropertyMap) -> (r:
        Result<Option<Value>, Error>)
        ensures
            request_outcome(
                r,
                store@.distinct_id,
                self.client.token@,
                action@,
                properties.members(),
            ),
    {
        if !self.identify_called(store) {
            return Ok(None);
        }
        let distinct_id = match &store.data.distinct_id {
            Some(id) => id.as_str(),
            None => {
                return Ok(None);
            },
        };
        proof {
            lemma_actions_differ();
        }
        if str_eq(action, SET_ACTION) {
            Ok(Some(self.client.set(distinct_id, properties, None)))
        } else if str_eq(action, SET_ONCE_ACTION) {
            Ok(Some(self.client.set_once(distinct_id, properties, None)))
        } else if str_eq(action, UNSET_ACTION) {
            let keys = Self::names(properties);
            Ok(Some(self.client.unset(distinct_id, keys, None)))
        } else if str_eq(action, ADD_ACTION) {
            match Self::not_numeric(&properties) {
                Some(key) => Err(
                    Error::MixpanelError(
                        joined3("Invalid increment value for key '", key.as_str(), "'"),
                    ),
                ),
                None => Ok(Some(self.client.increment_numbers(distinct_id, properties, None))),
            }
        } else if str_eq(action, APPEND_ACTION) {
            Ok(Some(self.client.append(distinct_id, properties, None)))
        } else if str_eq(action, REMOVE_ACTION) {
            Ok(Some(self.client.remove(distinct_id, properties, None)))
        } else if str_eq(action, UNION_ACTION) {
            Ok(Some(self.client.union(distinct_id, properties, None)))
        } else if str_eq(action, DELETE_ACTION) {
            Ok(Some(self.client.delete_user(distinct_id, None)))
        } else {
            Err(Error::MixpanelError(joined("Unknown People action: ", action)))
        }
    }

    /// The properties of an object without the reserved ones; none for
    /// null. Any other value is an error that names the operation.
    pub fn parse_and_filter_props(&self, value: Value, action_name: &str) -> (r: Result<
        PropertyMap,
        Error,
    >)
        ensures
            match value@ {
                ValueView::Object(members) => r is Ok && r->Ok_0@ == without_reserved(
                    members_to_map(members),
                ),
                ValueView::Null => r is Ok && r->Ok_0@ == Map::<Seq<char>, ValueView>::empty(),
                _ => r is Err && r->Err_0.is_usage(invalid_properties(action_name@)),
            },
    {
        match value {
            Value::Object(members) => {
                proof {
                    lemma_object_view(members);
                }
                let ghost incoming = members_view(members@);
                let mut out = PropertyMap::new();
                proof {
                    assert(incoming.take(0) =~= Seq::<MemberView>::empty());
                    assert(out@ =~= without_reserved(members_to_map(incoming.take(0))));
                }
                for entry in it: members
                    invariant
                        it.seq() == members@,
                        incoming == members_view(members@),
                        out@ == without_reserved(members_to_map(incoming.take(it.index() as int))),
                {
                    let ghost i = it.index() as int;
                    let ghost x = MemberView { key: entry.0@, value: entry.1@ };
                    proof {
                        assert(incoming.take(i + 1) =~= incoming.take(i).push(x));
                        lemma_map_push(incoming.take(i), x);
                    }
                    if !self.is_reserved_property(entry.0.as_str()) {
                        out.insert(entry.0, entry.1);
                    }
                    proof {
                        assert(out@ =~= without_reserved(
                            members_to_map(incoming.take(i)).insert(x.key, x.value),
                        ));
                    }
                }
                proof {
                    assert(incoming.take(incoming.len() as int) =~= incoming);
                }
                Ok(out)
            },
            Value::Null => Ok(PropertyMap::new()),
            _ => Err(
                Error::MixpanelError(
                    joined3("Properties for people.", action_name, " must be an object or null"),
                ),
            ),
        }
    }

    /// Prepares the request for properties that are known: nothing for
    /// none.
    fn send_properties(&self, store: &Persistence, action: &str, properties: PropertyMap) -> (r:
        Result<Option<Value>, Error>)
        ensures
            profile_outcome(r, store@.distinct_id, self.client.token@, action@, properties@),
    {
        if properties.is_empty() {
            return Ok(None);
        }
        proof {
            properties.lemma_members();
        }
        self.send_request(store, action, properties)
    }

    /// The common part of the operations that take the shorthand.
    fn shorthand_update(
        &self,
        store: &Persistence,
        action: &str,
        action_name: &str,
        message: &str,
        prop: Value,
        to: Option<Value>,
    ) -> (r: Result<Option<Value>, Error>)
        ensures
            shorthand_outcome(
                r,
                store@.distinct_id,
                self.client.token@,
                action@,
                prop@,
                option_view(to),
                message@,
            ),
    {
        let properties = match prop {
            Value::Object(members) => {
                proof {
                    lemma_object_view(members);
                }
                match self.parse_and_filter_props(Value::Object(members), action_name) {
                    Ok(p) => p,
                    Err(e) => {
                        return Err(e);
                    },
                }
            },
            Value::String(key) => {
                if self.is_reserved_property(key.as_str()) {
                    return Ok(None);
                }
                let mut map = PropertyMap::new();
                map.insert(
                    key,
                    match to {
                        Some(v) => v,
                        None => Value::Null,
                    },
                );
                map
            },
            _ => {
                return Err(Error::MixpanelError(message.to_owned()));
            },
        };
        self.send_properties(store, action, properties)
    }

    /// Sets properties on the profile. `prop` is an object of properties,
    /// or the name of one property whose value is `to`.
    pub fn set(&self, store: &Persistence, prop: Value, to: Option<Value>) -> (r: Result<
        Option<Value>,
        Error,
    >)
        ensures
            shorthand_outcome(
                r,
                store@.distinct_id,
                self.client.token@,
                SET_ACTION@,
                prop@,
                option_view(to),
                INVALID_SET@,
            ),
    {
        self.shorthand_update(store, SET_ACTION, "set", INVALID_SET, prop, to)
    }

    /// Sets properties on the profile where they are not set yet.
    pub fn set_once(&self, store: &Persistence, prop: Value, to: Option<Value>) -> (r: Result<
        Option<Value>,
        Error,
    >)
        ensures
            shorthand_outcome(
                r,
                store@.distinct_id,
                self.client.token@,
                SET_ONCE_ACTION@,
                prop@,
                option_view(to),
                INVALID_SET_ONCE@,
            ),
    {
        self.shorthand_update(store, SET_ONCE_ACTION, "set_once", INVALID_SET_ONCE, prop, to)
    }

    /// Appends a value to a list property of the profile.
    pub fn append(&self, store: &Persistence, list_name: Value, value: Option<Value>) -> (r: Result<
        Option<Value>,
        Error,
    >)
        ensures
            shorthand_outcome(
                r,
                store@.distinct_id,
                self.client.token@,
                APPEND_ACTION@,
                list_name@,
                option_view(value),
                INVALID_APPEND@,
            ),
    {
        self.shorthand_update(store, APPEND_ACTION, "append", INVALID_APPEND, list_name, value)
    }

    /// Removes a value from a list property of the profile.
    pub fn remove(&self, store: &Persistence, list_name: Value, value: Option<Value>) -> (r: Result<
        Option<Value>,
        Error,
    >)
        ensures
            shorthand_outcome(
                r,
                store@.distinct_id,
                self.client.token@,
                REMOVE_ACTION@,
                list_name@,
                option_view(value),
                INVALID_REMOVE@,
            ),
    {
        self.shorthand_update(store, REMOVE_ACTION, "remove", INVALID_REMOVE, list_name, value)
    }

    /// Deletes the profile. Nothing is sent before the caller has given an
    /// identity.
    pub fn delete_user(&self, store: &Persistence) -> (r: Result<Option<Value>, Error>)
        ensures
            request_outcome(
                r,
                store@.distinct_id,
                self.client.token@,
                DELETE_ACTION@,
                Seq::<MemberView>::empty(),
            ),
    {
        if !self.identify_called(store) {
            return Ok(None);
        }
        let properties = PropertyMap::new();
        self.send_request(store, DELETE_ACTION, properties)
    }

    /// Unsets properties of the profile. `prop` is the name of one
    /// property, or an array of names.
    pub fn unset(&self, store: &Persistence, prop: Value) -> (r: Result<Option<Value>, Error>)
        ensures
            match prop@ {
                ValueView::String(key) => profile_outcome(
                    r,
                    store@.distinct_id,
                    self.client.token@,
                    UNSET_ACTION@,
                    unset_names(seq![prop@]),
                ),
                ValueView::Array(items) => if all_strings(items) {
                    profile_outcome(
                        r,
                        store@.distinct_id,
                        self.client.token@,
                        UNSET_ACTION@,
                        unset_names(items),
                    )
                } else {
                    r is Err && r->Err_0.is_usage(INVALID_UNSET_ITEM@)
                },
                _ => r is Err && r->Err_0.is_usage(INVALID_UNSET@),
            },
    {
        let mut keys_to_unset = PropertyMap::new();
        match prop {
            Value::String(key) => {
                if !self.is_reserved_property(key.as_str()) {
                    keys_to_unset.insert(key, Value::Null);
                }
                proof {
                    assert(keys_to_unset@ =~= unset_names(seq![prop@])) by {
                        assert(seq![prop@][0] == text(key@));
                    }
                }
            },
            Value::Array(keys) => {
                proof {
                    crate::json::lemma_array_view(keys);
                }
                let ghost items = crate::json::items_view(keys@);
                proof {
                    assert(keys_to_unset@ =~= unset_names(items.take(0)));
                }
                for key_val in it: keys
                    invariant
                        it.seq() == keys@,
                        items == crate::json::items_view(keys@),
                        prop@ == ValueView::Array(items),
                        all_strings(items.take(it.index() as int)),
                        keys_to_unset@ == unset_names(items.take(it.index() as int)),
                {
                    let ghost i = it.index() as int;
                    proof {
                        assert(items.take(i + 1) =~= items.take(i).push(key_val@));
                    }
                    match key_val {
                        Value::String(key) => {
                            let ghost k = key@;
                            if !self.is_reserved_property(key.as_str()) {
                                keys_to_unset.insert(key, Value::Null);
                            }
                            proof {
                                let before = items.take(i);
                                let after = items.take(i + 1);
                                assert(after[i] == text(k));
                                assert forall|n: Seq<char>|
                                    unset_names(after).contains_key(n)
                                        <==> keys_to_unset@.contains_key(n) by {
                                    if unset_names(after).contains_key(n) {
                                        let j = choose|j: int|
                                            0 <= j < after.len() && after[j] == text(n);
                                        if j < i {
                                            assert(before[j] == text(n));
                                        }
                                    }
                                    if unset_names(before).contains_key(n) {
                                        let j = choose|j: int|
                                            0 <= j < before.len() && before[j] == text(n);
                                        assert(after[j] == text(n));
                                    }
                                }
                                assert(keys_to_unset@ =~= unset_names(after));
                                assert(all_strings(after)) by {
                                    assert forall|j: int| 0 <= j < after.len() implies after[j]
                                        is String by {
                                        if j < i {
                                            assert(before[j] is String);
                                        }
                                    }
                                }
                            }
                        },
                        _ => {
                            proof {
                                assert(items[i] == key_val@);
                                assert(!(items[i] is String));
                                assert(!all_strings(items));
                            }
                            return Err(Error::MixpanelError(INVALID_UNSET_ITEM.to_owned()));
                        },
                    }
                }
                proof {
                    assert(items.take(items.len() as int) =~= items);
                }
            },
            _ => {
                return Err(Error::MixpanelError(INVALID_UNSET.to_owned()));
            },
        }
        self.send_properties(store, UNSET_ACTION, keys_to_unset)
    }

    /// The numeric properties of an object without the reserved ones, or
    /// the name of the first property that is not reserved and holds no
    /// number.
    fn numeric_props(&self, members: Vec<(String, Value)>) -> (r: Result<PropertyMap, String>)
        ensures
            match r {
                Ok(map) => first_non_number(members_view(members@)) == members.len() && map@
                    == without_reserved(members_to_map(members_view(members@))),
                Err(key) => first_non_number(members_view(members@)) < members.len() && key@
                    == members_view(members@)[first_non_number(members_view(members@))].key,
            },
    {
        let ghost incoming = members_view(members@);
        let mut out = PropertyMap::new();
        proof {
            assert(incoming.take(0) =~= Seq::<MemberView>::empty());
            assert(incoming.skip(0) =~= incoming);
            assert(out@ =~= without_reserved(members_to_map(incoming.take(0))));
        }
        for entry in it: members
            invariant
                it.seq() == members@,
                incoming == members_view(members@),
                out@ == without_reserved(members_to_map(incoming.take(it.index() as int))),
                first_non_number(incoming) == it.index() + first_non_number(
                    incoming.skip(it.index() as int),
                ),
        {
            let ghost i = it.index() as int;
            let ghost x = MemberView { key: entry.0@, value: entry.1@ };
            proof {
                assert(incoming.take(i + 1) =~= incoming.take(i).push(x));
                lemma_map_push(incoming.take(i), x);
                assert(incoming.skip(i).drop_first() =~= incoming.skip(i + 1));
                assert(incoming.skip(i)[0] == incoming[i]);
                assert(incoming.skip(i).len() > 0);
            }
            if !self.is_reserved_property(entry.0.as_str()) {
                if entry.1.is_number() {
                    out.insert(entry.0, entry.1);
                } else {
                    proof {
                        assert(first_non_number(incoming.skip(i)) == 0);
                    }
                    return Err(entry.0);
                }
            }
            proof {
                assert(out@ =~= without_reserved(
                    members_to_map(incoming.take(i)).insert(x.key, x.value),
                ));
            }
        }
        proof {
            assert(incoming.take(incoming.len() as int) =~= incoming);
            assert(incoming.skip(incoming.len() as int) =~= Seq::<MemberView>::empty());
        }
        Ok(out)
    }

    /// Adds to numeric properties of the profile. `prop` is an object of
    /// amounts, or the name of one property to add `by` to (1 where there
    /// is none). An amount that is no number fails the whole call: nothing
    /// is handed back to be sent.
    pub fn increment(&self, store: &Persistence, prop: Value, by: Option<Value>) -> (r: Result<
        Option<Value>,
        Error,
    >)
        ensures
            match prop@ {
                ValueView::Object(members) => if first_non_number(members) < members.len() {
                    r is Err && r->Err_0.is_usage(
                        invalid_increment(members[first_non_number(members)].key),
                    )
                } else {
                    profile_outcome(
                        r,
                        store@.distinct_id,
                        self.client.token@,
                        ADD_ACTION@,
                        without_reserved(members_to_map(members)),
                    )
                },
                ValueView::String(key) => if is_reserved(key) {
                    r == Ok::<Option<Value>, Error>(None)
                } else if by is Some && !by->Some_0@.is_number() {
                    r is Err && r->Err_0.is_usage(INVALID_AMOUNT@)
                } else {
                    profile_outcome(
                        r,
                        store@.distinct_id,
                        self.client.token@,
                        ADD_ACTION@,
                        Map::<Seq<char>, ValueView>::empty().insert(
                            key,
                            match by {
                                Some(v) => v@,
                                None => crate::props::natural(1),
                            },
                        ),
                    )
                },
                _ => r is Err && r->Err_0.is_usage(INVALID_INCREMENT@),
            },
    {
        let properties = match prop {
            Value::Object(members) => {
                proof {
                    lemma_object_view(members);
                }
                match self.numeric_props(members) {
                    Ok(map) => map,
                    Err(key) => {
                        return Err(
                            Error::MixpanelError(
                                joined3("Invalid increment value for key '", key.as_str(), "'"),
                            ),
                        );
                    },
                }
            },
            Value::String(key) => {
                if self.is_reserved_property(key.as_str()) {
                    return Ok(None);
                }
                let amount = match by {
                    Some(v) => v,
                    None => Value::Number(crate::json::Number::PosInt(1)),
                };
                if !amount.is_number() {
                    return Err(Error::MixpanelError(INVALID_AMOUNT.to_owned()));
                }
                let mut map = PropertyMap::new();
                map.insert(key, amount);
                map
            },
            _ => {
                return Err(Error::MixpanelError(INVALID_INCREMENT.to_owned()));
            },
        };
        self.send_properties(store, ADD_ACTION, properties)
    }

    /// The list that a value stands for: an array as it is, any other value
    /// as the array that holds it alone.
    pub fn list_of(value: Value) -> (r: Value)
        ensures
            r@ == as_list(value@),
    {
        match value {
            Value::Array(items) => Value::Array(items),
            single => {
                let mut items: Vec<Value> = Vec::new();
                items.push(single);
                proof {
                    crate::json::lemma_array_view(items);
                    assert(crate::json::items_view(items@) =~= seq![single@]);
                }
                Value::Array(items)
            },
        }
    }

    /// Merges values into list properties of the profile. `list_name` is an
    /// object of lists, or the name of one property with `values` beside
    /// it. A value that is no array is sent as the array that holds it
    /// alone.
    pub fn union(&self, store: &Persistence, list_name: Value, values: Option<Value>) -> (r: Result<
        Option<Value>,
        Error,
    >)
        ensures
            match list_name@ {
                ValueView::Object(members) => profile_outcome(
                    r,
                    store@.distinct_id,
                    self.client.token@,
                    UNION_ACTION@,
                    as_lists(without_reserved(members_to_map(members))),
                ),
                ValueView::String(key) => if is_reserved(key) {
                    r == Ok::<Option<Value>, Error>(None)
                } else {
                    profile_outcome(
                        r,
                        store@.distinct_id,
                        self.client.token@,
                        UNION_ACTION@,
                        Map::<Seq<char>, ValueView>::empty().insert(
                            key,
                            match values {
                                Some(v) => as_list(v@),
                                None => ValueView::Array(Seq::empty()),
                            },
                        ),
                    )
                },
                _ => r is Err && r->Err_0.is_usage(INVALID_UNION@),
            },
    {
        let properties = match list_name {
            Value::Object(members) => {
                proof {
                    lemma_object_view(members);
                }
                let ghost incoming = members_view(members@);
                let mut out = PropertyMap::new();
                proof {
                    assert(incoming.take(0) =~= Seq::<MemberView>::empty());
                    assert(out@ =~= as_lists(without_reserved(members_to_map(incoming.take(0)))));
                }
                for entry in it: members
                    invariant
                        it.seq() == members@,
                        incoming == members_view(members@),
                        out@ == as_lists(
                            without_reserved(members_to_map(incoming.take(it.index() as int))),
                        ),
                {
                    let ghost i = it.index() as int;
                    let ghost x = MemberView { key: entry.0@, value: entry.1@ };
                    proof {
                        assert(incoming.take(i + 1) =~= incoming.take(i).push(x));
                        lemma_map_push(incoming.take(i), x);
                    }
                    if !self.is_reserved_property(entry.0.as_str()) {
                        out.insert(entry.0, Self::list_of(entry.1));
                    }
                    proof {
                        assert(out@ =~= as_lists(
                            without_reserved(
                                members_to_map(incoming.take(i)).insert(x.key, x.value),
                            ),
                        ));
                    }
                }
                proof {
                    assert(incoming.take(incoming.len() as int) =~= incoming);
                }
                out
            },
            Value::String(key) => {
                if self.is_reserved_property(key.as_str()) {
                    return Ok(None);
                }
                let values_to_union = match values {
                    Some(v) => Self::list_of(v),
                    None => {
                        let items: Vec<Value> = Vec::new();
                        proof {
                            crate::json::lemma_array_view(items);
                            assert(crate::json::items_view(items@) =~= Seq::<ValueView>::empty());
                        }
                        Value::Array(items)
                    },
                };
                let mut map = PropertyMap::new();
                map.insert(key, values_to_union);
                map
            },
            _ => {
                return Err(Error::MixpanelError(INVALID_UNION.to_owned()));
            },
        };
        self.send_properties(store, UNION_ACTION, properties)
    }
}

/// The names of the profile actions differ from one another.
pub proof fn lemma_actions_differ()
    ensures
        SET_ACTION@ != SET_ONCE_ACTION@,
        SET_ACTION@ != UNSET_ACTION@,
        SET_ACTION@ != ADD_ACTION@,
        SET_ACTION@ != APPEND_ACTION@,
        SET_ACTION@ != REMOVE_ACTION@,
        SET_ACTION@ != UNION_ACTION@,
        SET_ACTION@ != DELETE_ACTION@,
        SET_ONCE_ACTION@ != UNSET_ACTION@,
        SET_ONCE_ACTION@ != ADD_ACTION@,
        SET_ONCE_ACTION@ != APPEND_ACTION@,
        SET_ONCE_ACTION@ != REMOVE_ACTION@,
        SET_ONCE_ACTION@ != UNION_ACTION@,
        SET_ONCE_ACTION@ != DELETE_ACTION@,
        UNSET_ACTION@ != ADD_ACTION@,
        UNSET_ACTION@ != APPEND_ACTION@,
        UNSET_ACTION@ != REMOVE_ACTION@,
        UNSET_ACTION@ != UNION_ACTION@,
        UNSET_ACTION@ != DELETE_ACTION@,
        ADD_ACTION@ != APPEND_ACTION@,
        ADD_ACTION@ != REMOVE_ACTION@,
        ADD_ACTION@ != UNION_ACTION@,
        ADD_ACTION@ != DELETE_ACTION@,
        APPEND_ACTION@ != REMOVE_ACTION@,
        APPEND_ACTION@ != UNION_ACTION@,
        APPEND_ACTION@ != DELETE_ACTION@,
        REMOVE_ACTION@ != UNION_ACTION@,
        REMOVE_ACTION@ != DELETE_ACTION@,
        UNION_ACTION@ != DELETE_ACTION@,
{
    reveal_strlit("$set");
    reveal_strlit("$set_once");
    reveal_strlit("$unset");
    reveal_strlit("$add");
    reveal_strlit("$append");
    reveal_strlit("$remove");
    reveal_strlit("$union");
    reveal_strlit("$delete");
    assert("$set"@.len() == 4);
    assert("$set_once"@.len() == 9);
    assert("$unset"@.len() == 6);
    assert("$add"@.len() == 4);
    assert("$append"@.len() == 7);
    assert("$remove"@.len() == 7);
    assert("$union"@.len() == 6);
    assert("$delete"@.len() == 7);
    assert("$set"@[1] == 's');
    assert("$add"@[1] == 'a');
    assert("$unset"@[2] == 'n');
    assert("$union"@[2] == 'n');
    assert("$unset"@[3] == 's');
    assert("$union"@[3] == 'i');
    assert("$append"@[1] == 'a');
    assert("$remove"@[1] == 'r');
    assert("$delete"@[1] == 'd');
}

} // verus!
