use crate::client::Modifiers;
use crate::json::{
    items_view, lemma_array_view, MemberView, Number, NumberView, Value, ValueView,
};
use crate::props::{
    distinct_keys, lemma_map_push, members_to_map, object_map, text, PropertyMap,
};
use crate::utils::{apply_modifiers, float, merged_modifiers};
use vstd::prelude::*;

verus! {

/// The path that profile updates are sent to.
pub const ENGAGE_ENDPOINT: &'static str = "/engage";

/// The members of an update: the token, the key and id of what is
/// updated, one action with its body, and the modifiers.
pub open spec fn update_members(
    token: Seq<char>,
    id_key: Seq<char>,
    id: Seq<char>,
    action: Seq<char>,
    body: ValueView,
    modifiers: Option<Modifiers>,
) -> Map<Seq<char>, ValueView> {
    let base = Map::<Seq<char>, ValueView>::empty().insert("$token"@, text(token)).insert(
        id_key,
        text(id),
    ).insert(action, body);
    match modifiers {
        Some(m) => merged_modifiers(base, m),
        None => base,
    }
}

/// Whether a value is the update with the given members: an object that
/// holds no key twice.
pub open spec fn is_update(v: ValueView, members: Map<Seq<char>, ValueView>) -> bool {
    v is Object && distinct_keys(v->Object_0) && object_map(v) == members
}

/// Builds an update from its parts.
pub fn build_update(
    token: &String,
    id_key: &str,
    id: &str,
    action: &str,
    body: Value,
    modifiers: Option<Modifiers>,
) -> (r: Value)
    ensures
        is_update(r@, update_members(token@, id_key@, id@, action@, body@, modifiers)),
{
    let mut data = PropertyMap::new();
    data.insert("$token".to_owned(), Value::String(token.clone()));
    data.insert(id_key.to_owned(), Value::String(id.to_owned()));
    data.insert(action.to_owned(), body);
    if let Some(m) = modifiers {
        apply_modifiers(&mut data, m);
    }
    proof {
        data.lemma_members();
    }
    data.into_value()
}

/// The JSON number that holds an integer.
pub open spec fn integer(n: i64) -> ValueView {
    if n >= 0 {
        ValueView::Number(NumberView::PosInt(n as int))
    } else {
        ValueView::Number(NumberView::NegInt(n as int))
    }
}

/// The JSON number that holds `n`.
pub fn integer_value(n: i64) -> (r: Value)
    ensures
        r@ == integer(n),
{
    if n >= 0 {
        Value::Number(Number::PosInt(n as u64))
    } else {
        Value::Number(Number::NegInt(n))
    }
}

/// The members that a list of amounts stands for, in order.
pub open spec fn increment_members(amounts: Seq<(String, i64)>) -> Seq<MemberView> {
    Seq::new(
        amounts.len(),
        |i: int| MemberView { key: amounts[i].0@, value: integer(amounts[i].1) },
    )
}

/// The map from each name to its amount as a JSON number.
pub fn increments(amounts: Vec<(String, i64)>) -> (r: PropertyMap)
    ensures
        r@ == members_to_map(increment_members(amounts@)),
{
    let ghost incoming = increment_members(amounts@);
    let mut r = PropertyMap::new();
    assert(incoming.take(0) =~= Seq::<MemberView>::empty());
    for entry in it: amounts
        invariant
            it.seq() == amounts@,
            incoming == increment_members(amounts@),
            r@ == members_to_map(incoming.take(it.index() as int)),
    {
        proof {
            let i = it.index() as int;
            let x = MemberView { key: entry.0@, value: integer(entry.1) };
            assert(incoming.take(i + 1) =~= incoming.take(i).push(x));
            lemma_map_push(incoming.take(i), x);
        }
        r.insert(entry.0, integer_value(entry.1));
    }
    assert(incoming.take(incoming.len() as int) =~= incoming);
    r
}

/// The JSON strings with the given names, in order.
pub open spec fn names_view(names: Seq<String>) -> Seq<ValueView> {
    Seq::new(names.len(), |i: int| text(names[i]@))
}

/// The JSON array of the given names.
pub fn names_value(names: Vec<String>) -> (r: Value)
    ensures
        r@ == ValueView::Array(names_view(names@)),
{
    let mut items: Vec<Value> = Vec::new();
    for name in it: names
        invariant
            it.seq() == names@,
            items.len() == it.index(),
            forall|j: int| 0 <= j < items.len() ==> items[j]@ == text(names[j]@),
    {
        items.push(Value::String(name));
    }
    proof {
        lemma_array_view(items);
        assert(items_view(items@) =~= names_view(names@));
    }
    Value::Array(items)
}

/// The charge that is appended to a profile's transactions: the given
/// properties with the amount, a binary64 value given by its bit pattern.
pub open spec fn charge_members(
    properties: Option<PropertyMap>,
    amount: u64,
) -> Map<Seq<char>, ValueView> {
    (match properties {
        Some(p) => p@,
        None => Map::empty(),
    }).insert("$amount"@, float(amount))
}

/// Builds the profile updates of one project. Each update is sent with GET
/// to [`ENGAGE_ENDPOINT`].
#[derive(Debug, Clone)]
pub struct MixpanelPeople {
    pub token: String,
}

impl MixpanelPeople {
    /// The update that sets properties on a profile.
    pub fn set(
        &self,
        distinct_id: &str,
        properties: PropertyMap,
        modifiers: Option<Modifiers>,
    ) -> (r: Value)
        ensures
            is_update(
                r@,
                update_members(
                    self.token@,
                    "$distinct_id"@,
                    distinct_id@,
                    "$set"@,
                    ValueView::Object(properties.members()),
                    modifiers,
                ),
            ),
    {
        self._set(distinct_id, properties, modifiers, false)
    }

    /// The update that sets properties on a profile where they are not set
    /// yet.
    pub fn set_once(
        &self,
        distinct_id: &str,
        properties: PropertyMap,
        modifiers: Option<Modifiers>,
    ) -> (r: Value)
        ensures
            is_update(
                r@,
                update_members(
                    self.token@,
                    "$distinct_id"@,
                    distinct_id@,
                    "$set_once"@,
                    ValueView::Object(properties.members()),
                    modifiers,
                ),
            ),
    {
        self._set(distinct_id, properties, modifiers, true)
    }

    /// The update that adds to numeric properties of a profile. Where a name
    /// is given twice, the later amount counts.
    pub fn increment(
        &self,
        distinct_id: &str,
        properties: Vec<(String, i64)>,
        modifiers: Option<Modifiers>,
    ) -> (r: Value)
        ensures
            exists|body: Seq<MemberView>|
                distinct_keys(body) && members_to_map(body) == members_to_map(
                    increment_members(properties@),
                ) && is_update(
                    r@,
                    update_members(
                        self.token@,
                        "$distinct_id"@,
                        distinct_id@,
                        "$add"@,
                        ValueView::Object(body),
                        modifiers,
                    ),
                ),
    {
        let amounts = increments(properties);
        proof {
            amounts.lemma_members();
        }
        build_update(
            &self.token,
            "$distinct_id",
            distinct_id,
            "$add",
            amounts.into_value(),
            modifiers,
        )
    }

    /// The update that adds the given numbers to numeric properties of a
    /// profile, each as it is given.
    pub fn increment_numbers(
        &self,
        distinct_id: &str,
        properties: PropertyMap,
        modifiers: Option<Modifiers>,
    ) -> (r: Value)
        ensures
            is_update(
                r@,
                update_members(
                    self.token@,
                    "$distinct_id"@,
                    distinct_id@,
                    "$add"@,
                    ValueView::Object(properties.members()),
                    modifiers,
                ),
            ),
    {
        build_update(
            &self.token,
            "$distinct_id",
            distinct_id,
            "$add",
            properties.into_value(),
            modifiers,
        )
    }

    /// The update that appends values to list properties of a profile.
    pub fn append(
        &self,
        distinct_id: &str,
        properties: PropertyMap,
        modifiers: Option<Modifiers>,
    ) -> (r: Value)
        ensures
            is_update(
                r@,
                update_members(
                    self.token@,
                    "$distinct_id"@,
                    distinct_id@,
                    "$append"@,
                    ValueView::Object(properties.members()),
                    modifiers,
                ),
            ),
    {
        build_update(
            &self.token,
            "$distinct_id",
            distinct_id,
            "$append",
            properties.into_value(),
            modifiers,
        )
    }

    /// The update that records a charge on a profile. The amount is a
    /// binary64 value, given by its bit pattern.
    pub fn track_charge(
        &self,
        distinct_id: &str,
        amount: u64,
        properties: Option<PropertyMap>,
        modifiers: Option<Modifiers>,
    ) -> (r: Value)
        ensures
            exists|charge: Seq<MemberView>, wrapped: Seq<MemberView>|
                distinct_keys(charge) && members_to_map(charge) == charge_members(
                    properties,
                    amount,
                ) && distinct_keys(wrapped) && members_to_map(wrapped) == Map::<
                    Seq<char>,
                    ValueView,
                >::empty().insert("$transactions"@, ValueView::Object(charge)) && is_update(
                    r@,
                    update_members(
                        self.token@,
                        "$distinct_id"@,
                        distinct_id@,
                        "$append"@,
                        ValueView::Object(wrapped),
                        modifiers,
                    ),
                ),
    {
        let mut charge = match properties {
            Some(p) => p,
            None => PropertyMap::new(),
        };
        charge.insert("$amount".to_owned(), Value::Number(Number::Float(amount)));
        let ghost charge_seq = charge.members();
        proof {
            charge.lemma_members();
        }
        let mut wrapped = PropertyMap::new();
        wrapped.insert("$transactions".to_owned(), charge.into_value());
        let ghost wrapped_seq = wrapped.members();
        proof {
            wrapped.lemma_members();
        }
        build_update(
            &self.token,
            "$distinct_id",
            distinct_id,
            "$append",
            wrapped.into_value(),
            modifiers,
        )
    }

    /// The update that clears the charges of a profile.
    pub fn clear_charges(&self, distinct_id: &str, modifiers: Option<Modifiers>) -> (r: Value)
        ensures
            exists|wrapped: Seq<MemberView>|
                distinct_keys(wrapped) && members_to_map(wrapped) == Map::<
                    Seq<char>,
                    ValueView,
                >::empty().insert("$transactions"@, ValueView::Array(Seq::empty())) && is_update(
                    r@,
                    update_members(
                        self.token@,
                        "$distinct_id"@,
                        distinct_id@,
                        "$set"@,
                        ValueView::Object(wrapped),
                        modifiers,
                    ),
                ),
    {
        let empty: Vec<Value> = Vec::new();
        proof {
            lemma_array_view(empty);
            assert(items_view(empty@) =~= Seq::<ValueView>::empty());
        }
        let mut wrapped = PropertyMap::new();
        wrapped.insert("$transactions".to_owned(), Value::Array(empty));
        proof {
            wrapped.lemma_members();
        }
        build_update(
            &self.token,
            "$distinct_id",
            distinct_id,
            "$set",
            wrapped.into_value(),
            modifiers,
        )
    }

    /// The update that deletes a profile.
    pub fn delete_user(&self, distinct_id: &str, modifiers: Option<Modifiers>) -> (r: Value)
        ensures
            is_update(
                r@,
                update_members(
                    self.token@,
                    "$distinct_id"@,
                    distinct_id@,
                    "$delete"@,
                    text(""@),
                    modifiers,
                ),
            ),
    {
        build_update(
            &self.token,
            "$distinct_id",
            distinct_id,
            "$delete",
            Value::String("".to_owned()),
            modifiers,
        )
    }

    /// The update that removes values from list properties of a profile.
    pub fn remove(
        &self,
        distinct_id: &str,
        properties: PropertyMap,
        modifiers: Option<Modifiers>,
    ) -> (r: Value)
        ensures
            is_update(
                r@,
                update_members(
                    self.token@,
                    "$distinct_id"@,
                    distinct_id@,
                    "$remove"@,
                    ValueView::Object(properties.members()),
                    modifiers,
                ),
            ),
    {
        build_update(
            &self.token,
            "$distinct_id",
            distinct_id,
            "$remove",
            properties.into_value(),
            modifiers,
        )
    }

    /// The update that merges values into list properties of a profile.
    pub fn union(
        &self,
        distinct_id: &str,
        properties: PropertyMap,
        modifiers: Option<Modifiers>,
    ) -> (r: Value)
        ensures
            is_update(
                r@,
                update_members(
                    self.token@,
                    "$distinct_id"@,
                    distinct_id@,
                    "$union"@,
                    ValueView::Object(properties.members()),
                    modifiers,
                ),
            ),
    {
        build_update(
            &self.token,
            "$distinct_id",
            distinct_id,
            "$union",
            properties.into_value(),
            modifiers,
        )
    }

    /// The update that unsets the named properties of a profile.
    pub fn unset(
        &self,
        distinct_id: &str,
        properties: Vec<String>,
        modifiers: Option<Modifiers>,
    ) -> (r: Value)
        ensures
            is_update(
                r@,
                update_members(
                    self.token@,
                    "$distinct_id"@,
                    distinct_id@,
                    "$unset"@,
                    ValueView::Array(names_view(properties@)),
                    modifiers,
                ),
            ),
    {
        build_update(
            &self.token,
            "$distinct_id",
            distinct_id,
            "$unset",
            names_value(properties),
            modifiers,
        )
    }

    /// The update for `set` and `set_once`.
    pub fn _set(
        &self,
        distinct_id: &str,
        properties: PropertyMap,
        modifiers: Option<Modifiers>,
        set_once: bool,
    ) -> (r: Value)
        ensures
            is_update(
                r@,
                update_members(
                    self.token@,
                    "$distinct_id"@,
                    distinct_id@,
                    if set_once {
                        "$set_once"@
                    } else {
                        "$set"@
                    },
                    ValueView::Object(properties.members()),
                    modifiers,
                ),
            ),
    {
        let operation = if set_once {
            "$set_once"
        } else {
            "$set"
        };
        build_update(
            &self.token,
            "$distinct_id",
            distinct_id,
            operation,
            properties.into_value(),
            modifiers,
        )
    }
}

} // verus!
