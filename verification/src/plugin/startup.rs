use crate::client::{is_default_config, Config, Mixpanel};
use crate::json::{Value, ValueView};
use crate::plugin::error::Error;
use crate::plugin::layout::loaded_record;
use crate::plugin::people::{MixpanelPeople, DEVICE_PREFIX};
use crate::plugin::persistence::{
    string_view, Persistence, PersistenceError, PersistentDataView,
};
use crate::plugin::state::MixpanelState;
use crate::props::{text, PropertyMap};
use crate::text::{joined, joined3, str_eq};
use vstd::prelude::*;

verus! {

/// What is said, before the reason, where the id of the machine could not be had.
pub const NO_MACHINE_ID: &'static str = "Failed to get machine ID: ";

/// The name under which a platform is reported.
pub open spec fn platform_name(platform: Seq<char>) -> Seq<char> {
    if platform == "macos"@ {
        "Mac OS X"@
    } else if platform == "windows"@ {
        "Windows"@
    } else if platform == "linux"@ {
        "Linux"@
    } else if platform == "ios"@ {
        "iOS"@
    } else if platform == "android"@ {
        "Android"@
    } else {
        platform
    }
}

/// Whether the id of the machine is needed at start-up: the record holds no
/// distinct id, or no device id is visible.
pub open spec fn needs_machine_id(store: PersistentDataView, now: u64) -> bool {
    store.distinct_id is None || store.visible_property("$device_id"@, now) is None
}

/// The record at start-up once a missing distinct id has been set to the
/// identity of the machine.
pub open spec fn with_initial_identity(
    store: PersistentDataView,
    machine_id: Result<String, String>,
    now: u64,
) -> PersistentDataView {
    if store.distinct_id is None && machine_id is Ok {
        store.with_distinct_id(
            Some(DEVICE_PREFIX@ + machine_id->Ok_0@),
        )
    } else {
        store
    }
}

/// The properties to register at start-up.
pub open spec fn initial_properties(
    store: PersistentDataView,
    machine_id: Result<String, String>,
    platform: Seq<char>,
    webview_version: Option<Seq<char>>,
    now: u64,
) -> Map<Seq<char>, ValueView> {
    let empty = Map::<Seq<char>, ValueView>::empty();
    let identity = if store.distinct_id is None && machine_id is Ok {
        empty.insert(
            "distinct_id"@,
            text(DEVICE_PREFIX@ + machine_id->Ok_0@),
        )
    } else {
        empty
    };
    let device = if store.visible_property("$device_id"@, now) is None && machine_id is Ok {
        identity.insert("$device_id"@, text(machine_id->Ok_0@))
    } else {
        identity
    };
    let described = device.insert("$os"@, text(platform_name(platform))).insert(
        "$browser"@,
        text("Tauri WebView"@),
    );
    match webview_version {
        Some(v) => described.insert("$browser_version"@, text(v)),
        None => described,
    }
}

/// What `gather_initial_properties` owes, for the record before and after.
pub open spec fn initial_outcome(
    r: Result<PropertyMap, Error>,
    before: PersistentDataView,
    after: PersistentDataView,
    machine_id: Result<String, String>,
    platform: Seq<char>,
    webview_version: Option<Seq<char>>,
    now: u64,
) -> bool {
    if needs_machine_id(before, now) && machine_id is Err {
        r is Err && r->Err_0.is_usage(NO_MACHINE_ID@ + machine_id->Err_0@) && after
            == before
    } else {
        r is Ok && r->Ok_0@ == initial_properties(
            before,
            machine_id,
            platform,
            webview_version,
            now,
        ) && after == with_initial_identity(before, machine_id, now)
    }
}

/// What start-up owes. Where the id of the machine is needed and could
/// not be had, it fails. Otherwise the state holds the token, in the
/// client and in each of its builders, and the configuration; nothing in
/// memory; and the record that was loaded with the initial identity and
/// properties.
pub open spec fn start_outcome(
    r: Result<MixpanelState, Error>,
    token: Seq<char>,
    config: Option<Config>,
    stored: Result<Option<Value>, PersistenceError>,
    machine_id: Result<String, String>,
    platform: Seq<char>,
    webview_version: Option<Seq<char>>,
    now: u64,
) -> bool {
    let loaded = loaded_record(stored, now);
    if needs_machine_id(loaded, now) && machine_id is Err {
        r is Err && r->Err_0.is_usage(NO_MACHINE_ID@ + machine_id->Err_0@)
    } else {
        &&& r is Ok
        &&& r->Ok_0@.token() == token
        &&& r->Ok_0@.people_token() == token
        &&& r->Ok_0.client.people.token@ == token
        &&& r->Ok_0.client.groups.token@ == token
        &&& config is Some ==> r->Ok_0.client.config == config->Some_0
        &&& config is None ==> is_default_config(r->Ok_0.client.config)
        &&& r->Ok_0@.overlay == Map::<Seq<char>, ValueView>::empty()
        &&& r->Ok_0@.store == with_initial_identity(loaded, machine_id, now).register(
            initial_properties(loaded, machine_id, platform, webview_version, now),
            None,
            now,
        )
    }
}

impl MixpanelState {
    /// The name of the file that holds the record of a project.
    pub fn persistence_file_name(token: &str) -> (r: String)
        ensures
            r@ == "mixpanel_"@ + token@ + ".json"@,
    {
        joined3("mixpanel_", token, ".json")
    }

    /// The name under which a platform is reported.
    pub fn mapped_platform(platform: &str) -> (r: String)
        ensures
            r@ == platform_name(platform@),
    {
        if str_eq(platform, "macos") {
            "Mac OS X".to_owned()
        } else if str_eq(platform, "windows") {
            "Windows".to_owned()
        } else if str_eq(platform, "linux") {
            "Linux".to_owned()
        } else if str_eq(platform, "ios") {
            "iOS".to_owned()
        } else if str_eq(platform, "android") {
            "Android".to_owned()
        } else {
            platform.to_owned()
        }
    }

    /// The properties to register at start-up. Where the record holds no
    /// distinct id, or no device id is visible, the id of the machine is
    /// needed: the call fails where it could not be had. A missing distinct
    /// id is set to the identity of the machine. The properties name the
    /// platform and the browser, and its version where it is known.
    pub fn gather_initial_properties(
        persistence: &mut Persistence,
        machine_id: Result<String, String>,
        platform: &str,
        webview_version: Option<String>,
        now: u64,
    ) -> (r: Result<PropertyMap, Error>)
        ensures
            initial_outcome(
                r,
                old(persistence)@,
                final(persistence)@,
                machine_id,
                platform@,
                string_view(webview_version),
                now,
            ),
    {
        let no_distinct_id = persistence.get_distinct_id().is_none();
        let no_device_id = persistence.get_property("$device_id", now).is_none();
        let mut initial_props = PropertyMap::new();
        if no_distinct_id || no_device_id {
            let machine_id = match machine_id {
                Ok(id) => id,
                Err(e) => {
                    return Err(
                        Error::MixpanelError(joined(NO_MACHINE_ID, e.as_str())),
                    );
                },
            };
            let initial_distinct_id = joined(
                DEVICE_PREFIX,
                machine_id.as_str(),
            );
            if no_distinct_id {
                persistence.set_distinct_id(Some(initial_distinct_id.clone()));
                initial_props.insert("distinct_id".to_owned(), Value::String(initial_distinct_id));
            }
            if no_device_id {
                initial_props.insert("$device_id".to_owned(), Value::String(machine_id));
            }
        }
        initial_props.insert("$os".to_owned(), Value::String(Self::mapped_platform(platform)));
        initial_props.insert("$browser".to_owned(), Value::String("Tauri WebView".to_owned()));
        if let Some(version) = webview_version {
            initial_props.insert("$browser_version".to_owned(), Value::String(version));
        }
        Ok(initial_props)
    }

    /// The state at start-up: the stored record as `Persistence::new` takes
    /// it, with the initial properties registered, and nothing held in
    /// memory.
    pub fn new(
        token: &str,
        config: Option<Config>,
        stored: Result<Option<Value>, PersistenceError>,
        machine_id: Result<String, String>,
        platform: &str,
        webview_version: Option<String>,
        now: u64,
    ) -> (r: Result<Self, Error>)
        ensures
            start_outcome(
                r,
                token@,
                config,
                stored,
                machine_id,
                platform@,
                string_view(webview_version),
                now,
            ),
    {
        let client = Mixpanel::init(token, config);
        let mut persistence = Persistence::new(stored, now);
        let initial_props = match Self::gather_initial_properties(
            &mut persistence,
            machine_id,
            platform,
            webview_version,
            now,
        ) {
            Ok(p) => p,
            Err(e) => {
                return Err(e);
            },
        };
        if !initial_props.is_empty() {
            persistence.register(initial_props, None, now);
        } else {
            proof {
                assert(persistence@.register(initial_props@, None, now).properties
                    =~= persistence@.properties);
            }
        }
        Ok(
            MixpanelState {
                client,
                super_properties: PropertyMap::new(),
                persistence,
                people: MixpanelPeople::new(token),
            },
        )
    }
}

} // verus!
