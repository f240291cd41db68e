use crate::client::Event;
use crate::json::{Value, ValueView};
use crate::plugin::error::Error;
use crate::plugin::events::{is_event, lemma_time_key};
use crate::plugin::people::{has_device_prefix, is_device_id, DEVICE_PREFIX};
use crate::plugin::persistence::{string_view, PersistentDataView, RegisterOptions};
use crate::plugin::startup::NO_MACHINE_ID;
use crate::plugin::state::{single, MixpanelState, MixpanelStateView};
use crate::props::{text, PropertyMap};
use crate::text::{joined, str_eq};
use vstd::prelude::*;

verus! {

/// What `alias` says where there is no id to give another name.
pub const NO_ALIAS_SOURCE: &'static str = "Cannot alias without an existing distinct_id.";

/// What `alias` says of an alias that is the id of an existing profile.
pub const ALIAS_TAKEN: &'static str =
    "Attempting to create alias for existing People user - aborting.";

impl MixpanelStateView {
    /// The state after `identify` at `now`. Nothing changes where the id is
    /// the current one or stands for a device. Otherwise a pending alias
    /// that differs from the id is dropped; the id is registered as
    /// `$user_id`; where no device id is visible, the previous id is
    /// registered as `$device_id`, with the flag that says so; and the id
    /// becomes the distinct id, in the record and among the properties.
    pub open spec fn identify(self, new_id: Seq<char>, now: u64) -> Self {
        if self.store.distinct_id == Some(new_id) || is_device_id(new_id) {
            self
        } else {
            let alias = self.pending_alias(now);
            let s1 = if alias is Some && alias != Some(new_id) {
                self.unregister("$alias"@, true)
            } else {
                self
            };
            let s2 = s1.register(single("$user_id"@, text(new_id)), true, None, now);
            let s3 = if s2.store.visible_property("$device_id"@, now) is None
                && self.store.distinct_id is Some {
                s2.register(
                    single("$device_id"@, text(self.store.distinct_id->Some_0)).insert(
                        "$had_persisted_distinct_id"@,
                        ValueView::Bool(true),
                    ),
                    true,
                    None,
                    now,
                )
            } else {
                s2
            };
            let s4 = s3.with_store(s3.store.with_distinct_id(Some(new_id)));
            s4.register(single("distinct_id"@, text(new_id)), true, None, now)
        }
    }

    /// The alias that is pending at `now`: the property `$alias` where it
    /// is a string.
    pub open spec fn pending_alias(self, now: u64) -> Option<Seq<char>> {
        match self.get_property("$alias"@, now) {
            Some(v) => v.as_str(),
            None => None,
        }
    }

    /// The properties of the event that `identify` emits, before the
    /// client adds its own: the new id and the previous one. There is none
    /// where nothing changes or no previous id exists.
    pub open spec fn identify_properties(self, new_id: Seq<char>) -> Option<
        Map<Seq<char>, ValueView>,
    > {
        if self.store.distinct_id == Some(new_id) || is_device_id(new_id)
            || self.store.distinct_id is None {
            None
        } else {
            Some(
                single("distinct_id"@, text(new_id)).insert(
                    "$anon_distinct_id"@,
                    text(self.store.distinct_id->Some_0),
                ),
            )
        }
    }

    /// The state after `reset`, before a new identity is registered.
    pub open spec fn cleared(self) -> Self {
        MixpanelStateView { store: PersistentDataView::empty(), overlay: Map::empty(), ..self }
    }

    /// The state after `reset` on a machine with the given id: nothing is
    /// kept of the record and of what was held in memory; the identity of
    /// the machine is the distinct id, and it is registered with the id of
    /// the machine among the properties.
    pub open spec fn reset_to(self, machine_id: Seq<char>, now: u64) -> Self {
        let cleared = self.cleared();
        cleared.with_store(
            cleared.store.with_distinct_id(Some(DEVICE_PREFIX@ + machine_id)),
        ).register_once(Self::device_identity(machine_id), None, true, None, now)
    }

    /// The properties that stand for the identity of a machine.
    pub open spec fn device_identity(machine_id: Seq<char>) -> Map<Seq<char>, ValueView> {
        single("distinct_id"@, text(DEVICE_PREFIX@ + machine_id)).insert(
            "$device_id"@,
            text(machine_id),
        )
    }
}

/// What `identify` hands back: the event to send, where there is one.
pub open spec fn identify_outcome(
    r: Option<Event>,
    before: MixpanelStateView,
    new_id: Seq<char>,
) -> bool {
    match before.identify_properties(new_id) {
        Some(p) => r is Some && is_event(r->Some_0@, "$identify"@, p, before.token()),
        None => r is None,
    }
}

/// What the caller of `alias` has to do next.
#[derive(Debug)]
pub enum AliasOutcome {
    /// The alias is the id that it was to stand for: no alias is created,
    /// and `identify` has been applied. The event, where there is one, is
    /// to be sent.
    Identified(Option<Event>),
    /// The event that creates the alias is to be sent; once it has been,
    /// `identify` is to be called with the alias.
    CreateAlias(Event),
}

/// What `alias` owes, for the state before and after.
pub open spec fn alias_outcome(
    r: Result<AliasOutcome, Error>,
    before: MixpanelStateView,
    after: MixpanelStateView,
    alias: Seq<char>,
    original: Option<Seq<char>>,
    now: u64,
) -> bool {
    let original_id = match original {
        Some(id) => Some(id),
        None => before.store.distinct_id,
    };
    if original_id is None {
        r is Err && r->Err_0.is_usage(NO_ALIAS_SOURCE@) && after
            == before
    } else if alias == original_id->Some_0 {
        r is Ok && r->Ok_0 is Identified && identify_outcome(r->Ok_0->Identified_0, before, alias)
            && after == before.identify(alias, now)
    } else if before.store.visible_property("$people_distinct_id"@, now) is Some
        && before.store.visible_property("$people_distinct_id"@, now)->Some_0.as_str() == Some(
        alias,
    ) {
        r is Err && r->Err_0.is_usage(ALIAS_TAKEN@) && after == before
    } else {
        r is Ok && r->Ok_0 is CreateAlias && is_event(
            r->Ok_0->CreateAlias_0@,
            "$create_alias"@,
            single("alias"@, text(alias)).insert("distinct_id"@, text(original_id->Some_0)),
            before.token(),
        ) && after == before.register(single("$alias"@, text(alias)), true, None, now)
    }
}

impl MixpanelState {
    /// Makes `new_distinct_id` the identity: the events from now on belong
    /// to it. An id that stands for a device is refused, and nothing
    /// changes. Hands back the `$identify` event to send, where a previous
    /// id existed.
    pub fn identify(&mut self, new_distinct_id: String, now: u64) -> (r: Option<Event>)
        ensures
            final(self)@ == old(self)@.identify(new_distinct_id@, now),
            identify_outcome(r, old(self)@, new_distinct_id@),
    {
        let old_distinct_id_opt = self.get_distinct_id();
        let old_alias_opt: Option<String> = match self.get_property("$alias", now) {
            Some(v) => match v.as_str() {
                Some(s) => Some(s.to_owned()),
                None => None,
            },
            None => None,
        };
        let same = match &old_distinct_id_opt {
            Some(old_id) => *old_id == new_distinct_id,
            None => false,
        };
        if same {
            return None;
        }
        if has_device_prefix(new_distinct_id.as_str()) {
            return None;
        }
        let persistent = RegisterOptions { persistent: true, days: None };
        match &old_alias_opt {
            Some(a) => {
                if *a != new_distinct_id {
                    self.unregister_from("$alias", &persistent);
                }
            },
            None => {},
        }
        let mut user_id_prop = PropertyMap::new();
        user_id_prop.insert("$user_id".to_owned(), Value::String(new_distinct_id.clone()));
        self.register_props(user_id_prop, &persistent, now);
        if self.persistence.get_property("$device_id", now).is_none() {
            if let Some(old_id) = &old_distinct_id_opt {
                let mut device_props = PropertyMap::new();
                device_props.insert("$device_id".to_owned(), Value::String(old_id.clone()));
                device_props.insert("$had_persisted_distinct_id".to_owned(), Value::Bool(true));
                self.register_props(device_props, &persistent, now);
            }
        }
        self.set_distinct_id(Some(new_distinct_id.clone()));
        let mut dist_id_prop = PropertyMap::new();
        dist_id_prop.insert("distinct_id".to_owned(), Value::String(new_distinct_id.clone()));
        self.register_props(dist_id_prop, &persistent, now);
        match old_distinct_id_opt {
            Some(old_distinct_id) => {
                let mut identify_props = PropertyMap::new();
                identify_props.insert("distinct_id".to_owned(), Value::String(new_distinct_id));
                identify_props.insert(
                    "$anon_distinct_id".to_owned(),
                    Value::String(old_distinct_id),
                );
                proof {
                    lemma_time_key();
                }
                Some(self.client.track("$identify", Some(identify_props)))
            },
            None => None,
        }
    }

    /// Gives an identity another name. The identity is `original`, or the
    /// current distinct id where none is given; without any, the call
    /// fails. Where the alias is that very id, no alias is created and
    /// `identify` is applied.
    /// Where the alias is the id of an existing profile, the call fails.
    /// Otherwise the alias is registered as pending, and the event that
    /// creates it is handed back. A call that fails changes nothing.
    pub fn alias(&mut self, alias: String, original: Option<String>, now: u64) -> (r: Result<
        AliasOutcome,
        Error,
    >)
        ensures
            alias_outcome(r, old(self)@, final(self)@, alias@, string_view(original), now),
    {
        let original_id = match original {
            Some(id) => id,
            None => match self.get_distinct_id() {
                Some(id) => id,
                None => {
                    return Err(Error::MixpanelError(NO_ALIAS_SOURCE.to_owned()));
                },
            },
        };
        if alias == original_id {
            let event = self.identify(alias, now);
            return Ok(AliasOutcome::Identified(event));
        }
        let taken = match self.persistence.get_property("$people_distinct_id", now) {
            Some(v) => match v.as_str() {
                Some(s) => str_eq(s, alias.as_str()),
                None => false,
            },
            None => false,
        };
        if taken {
            return Err(Error::MixpanelError(ALIAS_TAKEN.to_owned()));
        }
        let persistent = RegisterOptions { persistent: true, days: None };
        let mut alias_prop = PropertyMap::new();
        alias_prop.insert("$alias".to_owned(), Value::String(alias.clone()));
        self.register_props(alias_prop, &persistent, now);
        let mut event_props = PropertyMap::new();
        event_props.insert("alias".to_owned(), Value::String(alias));
        event_props.insert("distinct_id".to_owned(), Value::String(original_id));
        proof {
            lemma_time_key();
        }
        Ok(AliasOutcome::CreateAlias(self.client.track("$create_alias", Some(event_props))))
    }

    /// Forgets the stored record and the properties held in memory, and
    /// makes the identity of the machine the distinct id anew. `machine_id`
    /// is the id of the machine, or why it could not be had: then the call
    /// fails after the state has been cleared.
    pub fn reset(&mut self, machine_id: Result<String, String>, now: u64) -> (r: Result<(), Error>)
        ensures
            match machine_id {
                Ok(id) => r is Ok && final(self)@ == old(self)@.reset_to(id@, now),
                Err(e) => r is Err && r->Err_0.is_usage(NO_MACHINE_ID@ + e@)
                    && final(self)@ == old(self)@.cleared(),
            },
    {
        self.persistence.clear_all_data();
        self.super_properties.clear();
        let machine_id = match machine_id {
            Ok(id) => id,
            Err(e) => {
                return Err(Error::MixpanelError(joined(NO_MACHINE_ID, e.as_str())));
            },
        };
        let initial_distinct_id = joined(DEVICE_PREFIX, machine_id.as_str());
        self.set_distinct_id(Some(initial_distinct_id.clone()));
        let mut props_to_register = PropertyMap::new();
        props_to_register.insert("distinct_id".to_owned(), Value::String(initial_distinct_id));
        props_to_register.insert("$device_id".to_owned(), Value::String(machine_id));
        let persistent = RegisterOptions { persistent: true, days: None };
        self.register_props_once(props_to_register, None, &persistent, now);
        Ok(())
    }
}

} // verus!
