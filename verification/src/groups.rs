use crate::client::Modifiers;
use crate::json::{Value, ValueView};
use crate::people::{is_update, names_value, names_view};
use crate::props::{text, PropertyMap};
use crate::utils::{apply_modifiers, merged_modifiers};
use vstd::prelude::*;

verus! {

/// The path that group updates are sent to.
pub const GROUPS_ENDPOINT: &'static str = "/groups";

/// The members of a group update: the token, the key and id of the group,
/// one action with its body, and the modifiers.
pub open spec fn group_update_members(
    token: Seq<char>,
    group_key: Seq<char>,
    group_id: Seq<char>,
    action: Seq<char>,
    body: ValueView,
    modifiers: Option<Modifiers>,
) -> Map<Seq<char>, ValueView> {
    let base = Map::<Seq<char>, ValueView>::empty().insert("$token"@, text(token)).insert(
        "$group_key"@,
        text(group_key),
    ).insert("$group_id"@, text(group_id)).insert(action, body);
    match modifiers {
        Some(m) => merged_modifiers(base, m),
        None => base,
    }
}

/// Builds a group update from its parts.
pub fn build_group_update(
    token: &String,
    group_key: &str,
    group_id: &str,
    action: &str,
    body: Value,
    modifiers: Option<Modifiers>,
) -> (r: Value)
    ensures
        is_update(
            r@,
            group_update_members(token@, group_key@, group_id@, action@, body@, modifiers),
        ),
{
    let mut data = PropertyMap::new();
    data.insert("$token".to_owned(), Value::String(token.clone()));
    data.insert("$group_key".to_owned(), Value::String(group_key.to_owned()));
    data.insert("$group_id".to_owned(), Value::String(group_id.to_owned()));
    data.insert(action.to_owned(), body);
    if let Some(m) = modifiers {
        apply_modifiers(&mut data, m);
    }
    proof {
        data.lemma_members();
    }
    data.into_value()
}

/// Builds the group updates of one project. Each update is sent with GET
/// to [`GROUPS_ENDPOINT`].
#[derive(Debug, Clone)]
pub struct MixpanelGroups {
    pub token: String,
}

impl MixpanelGroups {
    /// The update that sets properties on a group.
    pub fn set(
        &self,
        group_key: &str,
        group_id: &str,
        properties: PropertyMap,
        modifiers: Option<Modifiers>,
    ) -> (r: Value)
        ensures
            is_update(
                r@,
                group_update_members(
                    self.token@,
                    group_key@,
                    group_id@,
                    "$set"@,
                    ValueView::Object(properties.members()),
                    modifiers,
                ),
            ),
    {
        self._set(group_key, group_id, properties, modifiers, false)
    }

    /// The update that sets properties on a group where they are not set
    /// yet.
    pub fn set_once(
        &self,
        group_key: &str,
        group_id: &str,
        properties: PropertyMap,
        modifiers: Option<Modifiers>,
    ) -> (r: Value)
        ensures
            is_update(
                r@,
                group_update_members(
                    self.token@,
                    group_key@,
                    group_id@,
                    "$set_once"@,
                    ValueView::Object(properties.members()),
                    modifiers,
                ),
            ),
    {
        self._set(group_key, group_id, properties, modifiers, true)
    }

    /// The update that deletes a group.
    pub fn delete_group(&self, group_key: &str, group_id: &str, modifiers: Option<Modifiers>) -> (r:
        Value)
        ensures
            is_update(
                r@,
                group_update_members(
                    self.token@,
                    group_key@,
                    group_id@,
                    "$delete"@,
                    text(""@),
                    modifiers,
                ),
            ),
    {
        build_group_update(
            &self.token,
            group_key,
            group_id,
            "$delete",
            Value::String("".to_owned()),
            modifiers,
        )
    }

    /// The update that removes values from list properties of a group.
    pub fn remove(
        &self,
        group_key: &str,
        group_id: &str,
        properties: PropertyMap,
        modifiers: Option<Modifiers>,
    ) -> (r: Value)
        ensures
            is_update(
                r@,
                group_update_members(
                    self.token@,
                    group_key@,
                    group_id@,
                    "$remove"@,
                    ValueView::Object(properties.members()),
                    modifiers,
                ),
            ),
    {
        build_group_update(
            &self.token,
            group_key,
            group_id,
            "$remove",
            properties.into_value(),
            modifiers,
        )
    }

    /// The update that merges values into list properties of a group.
    pub fn union(
        &self,
        group_key: &str,
        group_id: &str,
        properties: PropertyMap,
        modifiers: Option<Modifiers>,
    ) -> (r: Value)
        ensures
            is_update(
                r@,
                group_update_members(
                    self.token@,
                    group_key@,
                    group_id@,
                    "$union"@,
                    ValueView::Object(properties.members()),
                    modifiers,
                ),
            ),
    {
        build_group_update(
            &self.token,
            group_key,
            group_id,
            "$union",
            properties.into_value(),
            modifiers,
        )
    }

    /// The update that unsets the named properties of a group.
    pub fn unset(
        &self,
        group_key: &str,
        group_id: &str,
        properties: Vec<String>,
        modifiers: Option<Modifiers>,
    ) -> (r: Value)
        ensures
            is_update(
                r@,
                group_update_members(
                    self.token@,
                    group_key@,
                    group_id@,
                    "$unset"@,
                    ValueView::Array(names_view(properties@)),
                    modifiers,
                ),
            ),
    {
        build_group_update(
            &self.token,
            group_key,
            group_id,
            "$unset",
            names_value(properties),
            modifiers,
        )
    }

    /// The update for `set` and `set_once`.
    pub fn _set(
        &self,
        group_key: &str,
        group_id: &str,
        properties: PropertyMap,
        modifiers: Option<Modifiers>,
        set_once: bool,
    ) -> (r: Value)
        ensures
            is_update(
                r@,
                group_update_members(
                    self.token@,
                    group_key@,
                    group_id@,
                    if set_once {
                        "$set_once"@
                    } else {
                        "$set"@
                    },
                    ValueView::Object(properties.members()),
                    modifiers,
                ),
            ),
    {
        let operation = if set_once {
            "$set_once"
        } else {
            "$set"
        };
        build_group_update(
            &self.token,
            group_key,
            group_id,
            operation,
            properties.into_value(),
            modifiers,
        )
    }
}

} // verus!
