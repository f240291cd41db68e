use crate::client::Mixpanel;
use crate::json::{lemma_object_view, Value, ValueView};
use crate::plugin::error::Error;
use crate::plugin::people::MixpanelPeople;
use crate::plugin::persistence::{
    merge_once, once_merged, option_view, options_days, options_persistent, string_view,
    Persistence, PersistentDataView, RegisterOptions,
};
use crate::props::{members_to_map, PropertyMap};
use vstd::prelude::*;

verus! {

/// What is said of properties that are neither an object nor null.
pub const NOT_PROPERTIES: &'static str = "properties must be an object or null";

/// The local state of one installation: the client, the stored record, the
/// properties held in memory only, and the profile operations.
#[derive(Debug)]
pub struct MixpanelState {
    pub client: Mixpanel,
    pub super_properties: PropertyMap,
    pub persistence: Persistence,
    pub people: MixpanelPeople,
}

/// The mathematical content of a [`MixpanelState`].
pub struct MixpanelStateView {
    /// The client: the project token and how the endpoint is reached.
    pub client: Mixpanel,
    /// The profile operations, with the project token that their updates
    /// carry.
    pub people: MixpanelPeople,
    /// The stored record.
    pub store: PersistentDataView,
    /// The properties held in memory only.
    pub overlay: Map<Seq<char>, ValueView>,
}

impl View for MixpanelState {
    type V = MixpanelStateView;

    open spec fn view(&self) -> MixpanelStateView {
        MixpanelStateView {
            client: self.client,
            people: self.people,
            store: self.persistence@,
            overlay: self.super_properties@,
        }
    }
}

/// The map with one key.
pub open spec fn single(key: Seq<char>, value: ValueView) -> Map<Seq<char>, ValueView> {
    Map::<Seq<char>, ValueView>::empty().insert(key, value)
}

/// The properties that a value stands for: those of an object, none for
/// null. Any other value stands for no properties.
pub open spec fn parsed_props(v: ValueView) -> Option<Map<Seq<char>, ValueView>> {
    match v {
        ValueView::Object(members) => Some(members_to_map(members)),
        ValueView::Null => Some(Map::empty()),
        _ => None,
    }
}

impl MixpanelStateView {
    /// The project token that events carry.
    pub open spec fn token(self) -> Seq<char> {
        self.client.token@
    }

    /// The project token that profile updates carry.
    pub open spec fn people_token(self) -> Seq<char> {
        self.people.client.token@
    }

    /// A property as `get_property` gives it at `now`: the stored one where
    /// it is visible, else the one held in memory.
    pub open spec fn get_property(self, name: Seq<char>, now: u64) -> Option<ValueView> {
        match self.store.visible_property(name, now) {
            Some(v) => Some(v),
            None => if self.overlay.contains_key(name) {
                Some(self.overlay[name])
            } else {
                None
            },
        }
    }

    /// The state after `register`.
    pub open spec fn register(
        self,
        props: Map<Seq<char>, ValueView>,
        persistent: bool,
        days: Option<u64>,
        now: u64,
    ) -> Self {
        if persistent {
            MixpanelStateView { store: self.store.register(props, days, now), ..self }
        } else {
            MixpanelStateView { overlay: self.overlay.union_prefer_right(props), ..self }
        }
    }

    /// The state after `register_once`.
    pub open spec fn register_once(
        self,
        props: Map<Seq<char>, ValueView>,
        default_value: Option<ValueView>,
        persistent: bool,
        days: Option<u64>,
        now: u64,
    ) -> Self {
        if persistent {
            MixpanelStateView {
                store: self.store.register_once(props, default_value, days, now),
                ..self
            }
        } else {
            MixpanelStateView { overlay: once_merged(self.overlay, props, default_value), ..self }
        }
    }

    /// The state after `unregister`.
    pub open spec fn unregister(self, name: Seq<char>, persistent: bool) -> Self {
        if persistent {
            MixpanelStateView { store: self.store.unregister(name), ..self }
        } else {
            MixpanelStateView { overlay: self.overlay.remove(name), ..self }
        }
    }

    /// The state with another stored record.
    pub open spec fn with_store(self, store: PersistentDataView) -> Self {
        MixpanelStateView { store, ..self }
    }
}

impl MixpanelState {
    /// The distinct id of the stored record.
    pub fn get_distinct_id(&self) -> (r: Option<String>)
        ensures
            string_view(r) == self@.store.distinct_id,
    {
        self.persistence.get_distinct_id()
    }

    /// Sets the distinct id of the stored record.
    pub fn set_distinct_id(&mut self, id: Option<String>)
        ensures
            final(self)@ == old(self)@.with_store(
                old(self)@.store.with_distinct_id(string_view(id)),
            ),
    {
        self.persistence.set_distinct_id(id);
    }

    /// The properties that a value stands for.
    pub fn parse_props(value: Value) -> (r: Result<PropertyMap, Error>)
        ensures
            match parsed_props(value@) {
                Some(p) => r is Ok && r->Ok_0@ == p,
                None => r is Err && r->Err_0.is_usage(NOT_PROPERTIES@),
            },
    {
        match value {
            Value::Object(members) => {
                proof {
                    lemma_object_view(members);
                }
                Ok(PropertyMap::from_members(members))
            },
            Value::Null => Ok(PropertyMap::new()),
            _ => Err(Error::MixpanelError(NOT_PROPERTIES.to_owned())),
        }
    }

    /// Registers properties where the options say.
    pub fn register_props(&mut self, props: PropertyMap, options: &RegisterOptions, now: u64)
        ensures
            final(self)@ == old(self)@.register(props@, options.persistent, options.days, now),
    {
        if options.persistent {
            self.persistence.register(props, options.days, now);
        } else {
            self.super_properties.extend(props);
        }
    }

    /// Registers super properties: they go with every event tracked from
    /// now on. They are stored unless the options say otherwise.
    pub fn register(&mut self, properties: Value, options: Option<Value>, now: u64) -> (r: Result<
        (),
        Error,
    >)
        ensures
            match parsed_props(properties@) {
                Some(p) => r is Ok && final(self)@ == old(self)@.register(
                    p,
                    options_persistent(option_view(options)),
                    options_days(option_view(options)),
                    now,
                ),
                None => r is Err && r->Err_0.is_usage(NOT_PROPERTIES@)
                    && final(self)@ == old(self)@,
            },
    {
        let register_options = RegisterOptions::parse_options(options);
        let props_map = match Self::parse_props(properties) {
            Ok(p) => p,
            Err(e) => {
                return Err(e);
            },
        };
        self.register_props(props_map, &register_options, now);
        Ok(())
    }

    /// Registers properties once where the options say.
    pub fn register_props_once(
        &mut self,
        props: PropertyMap,
        default_value: Option<Value>,
        options: &RegisterOptions,
        now: u64,
    )
        ensures
            final(self)@ == old(self)@.register_once(
                props@,
                option_view(default_value),
                options.persistent,
                options.days,
                now,
            ),
    {
        if options.persistent {
            self.persistence.register_once(props, default_value, options.days, now);
        } else {
            merge_once(&mut self.super_properties, props, &default_value);
        }
    }

    /// Registers super properties that are not set yet: a property that is
    /// set keeps its value, unless that value equals `default_value`.
    pub fn register_once(
        &mut self,
        properties: Value,
        default_value: Option<Value>,
        options: Option<Value>,
        now: u64,
    ) -> (r: Result<(), Error>)
        ensures
            match parsed_props(properties@) {
                Some(p) => r is Ok && final(self)@ == old(self)@.register_once(
                    p,
                    option_view(default_value),
                    options_persistent(option_view(options)),
                    options_days(option_view(options)),
                    now,
                ),
                None => r is Err && r->Err_0.is_usage(NOT_PROPERTIES@)
                    && final(self)@ == old(self)@,
            },
    {
        let register_options = RegisterOptions::parse_options(options);
        let props_map = match Self::parse_props(properties) {
            Ok(p) => p,
            Err(e) => {
                return Err(e);
            },
        };
        self.register_props_once(props_map, default_value, &register_options, now);
        Ok(())
    }

    /// Removes a property where the options say.
    pub fn unregister_from(&mut self, property_name: &str, options: &RegisterOptions)
        ensures
            final(self)@ == old(self)@.unregister(property_name@, options.persistent),
    {
        if options.persistent {
            self.persistence.unregister(property_name);
        } else {
            self.super_properties.remove(property_name);
        }
    }

    /// Removes a super property: it no longer goes with the events.
    pub fn unregister(&mut self, property_name: &str, options: Option<Value>) -> (r: Result<
        (),
        Error,
    >)
        ensures
            r is Ok,
            final(self)@ == old(self)@.unregister(
                property_name@,
                options_persistent(option_view(options)),
            ),
    {
        let register_options = RegisterOptions::parse_options(options);
        self.unregister_from(property_name, &register_options);
        Ok(())
    }

    /// The value of one super property at `now`: the stored one where it
    /// is visible, else the one held in memory.
    pub fn get_property(&self, property_name: &str, now: u64) -> (r: Option<Value>)
        ensures
            option_view(r) == self@.get_property(property_name@, now),
    {
        if let Some(value) = self.persistence.get_property(property_name, now) {
            return Some(value);
        }
        match self.super_properties.get(property_name) {
            Some(v) => Some(v.duplicate()),
            None => None,
        }
    }
}

} // verus!
