use crate::groups::MixpanelGroups;
use crate::json::{lemma_object_view, members_view, MemberView, Number, Value, ValueView};
use crate::people::MixpanelPeople;
use crate::props::{natural, text, PropertyMap};
use crate::text::{parse_u64, parsed_u64, since_epoch_millis};
use crate::utils::{millis_or_zero, seconds, seconds_of};
use vstd::prelude::*;

verus! {

/// The version that events carry as `$lib_version`.
pub const LIB_VERSION: &'static str = "0.1.0";

/// How the collection endpoint is reached.
#[derive(Debug, Clone)]
pub struct Config {
    pub test: bool,
    pub debug: bool,
    pub verbose: bool,
    pub host: String,
    pub protocol: String,
    pub path: String,
    pub secret: Option<String>,
    pub api_key: Option<String>,
    pub geolocate: bool,
    pub max_retries: u32,
    pub retry_base_delay_ms: u64,
    pub retry_max_delay_ms: u64,
}

/// Whether a configuration is the default one: the public endpoint over
/// HTTPS, no secret, three retries, waits from one to ten seconds.
pub open spec fn is_default_config(c: Config) -> bool {
    &&& !c.test
    &&& !c.debug
    &&& !c.verbose
    &&& c.host@ == "api.mixpanel.com"@
    &&& c.protocol@ == "https"@
    &&& c.path@ == ""@
    &&& c.secret is None
    &&& c.api_key is None
    &&& !c.geolocate
    &&& c.max_retries == 3
    &&& c.retry_base_delay_ms == 1000
    &&& c.retry_max_delay_ms == 10000
}

impl Default for Config {
    fn default() -> (r: Self)
        ensures
            is_default_config(r),
    {
        Config {
            test: false,
            debug: false,
            verbose: false,
            host: "api.mixpanel.com".to_owned(),
            protocol: "https".to_owned(),
            path: "".to_owned(),
            secret: None,
            api_key: None,
            geolocate: false,
            max_retries: 3,
            retry_base_delay_ms: 1000,
            retry_max_delay_ms: 10000,
        }
    }
}

/// Optional fields that a profile or group update carries beside its
/// action. Latitude and longitude are binary64 values, given by their bit
/// patterns.
#[derive(Debug, Clone)]
pub struct Modifiers {
    pub ip: Option<String>,
    pub ignore_time: Option<bool>,
    pub time: Option<u64>,
    pub ignore_alias: Option<bool>,
    pub latitude: Option<u64>,
    pub longitude: Option<u64>,
}

impl Default for Modifiers {
    fn default() -> (r: Self)
        ensures
            r.ip is None,
            r.ignore_time is None,
            r.time is None,
            r.ignore_alias is None,
            r.latitude is None,
            r.longitude is None,
    {
        Modifiers {
            ip: None,
            ignore_time: None,
            time: None,
            ignore_alias: None,
            latitude: None,
            longitude: None,
        }
    }
}

/// An event as it is sent.
#[derive(Debug, Clone)]
pub struct Event {
    pub event: String,
    pub properties: PropertyMap,
}

/// The mathematical content of an [`Event`].
pub struct EventView {
    pub event: Seq<char>,
    pub properties: Map<Seq<char>, ValueView>,
}

impl View for Event {
    type V = EventView;

    open spec fn view(&self) -> EventView {
        EventView { event: self.event@, properties: self.properties@ }
    }
}

/// The path that events are sent to.
pub const TRACK_ENDPOINT: &'static str = "/track";

impl Event {
    /// The event as it is written into a request: an object with the name
    /// as `event` and the properties as `properties`.
    pub fn into_value(self) -> (r: Value)
        ensures
            r@ == ValueView::Object(
                seq![
                    MemberView { key: "event"@, value: text(self.event@) },
                    MemberView {
                        key: "properties"@,
                        value: ValueView::Object(self.properties.members()),
                    },
                ],
            ),
    {
        let mut members: Vec<(String, Value)> = Vec::new();
        members.push(("event".to_owned(), Value::String(self.event)));
        members.push(("properties".to_owned(), self.properties.into_value()));
        proof {
            lemma_object_view(members);
            assert(members_view(members@) =~= seq![
                MemberView { key: "event"@, value: text(self.event@) },
                MemberView {
                    key: "properties"@,
                    value: ValueView::Object(self.properties.members()),
                },
            ]);
        }
        Value::Object(members)
    }
}

/// The properties of an event with the fields that every event carries.
pub open spec fn stamped(
    props: Map<Seq<char>, ValueView>,
    token: Seq<char>,
) -> Map<Seq<char>, ValueView> {
    props.insert("token"@, text(token)).insert("mp_lib"@, text("rust"@)).insert(
        "$lib_version"@,
        text(LIB_VERSION@),
    )
}

/// The properties with a `time` that is a string of digits turned into the
/// number it spells.
pub open spec fn with_numeric_time(props: Map<Seq<char>, ValueView>) -> Map<
    Seq<char>,
    ValueView,
> {
    if props.contains_key("time"@) {
        match props["time"@] {
            ValueView::String(s) => match parsed_u64(s) {
                Some(n) => props.insert("time"@, natural(n)),
                None => props,
            },
            _ => props,
        }
    } else {
        props
    }
}

/// The client: the project token and how the endpoint is reached.
#[derive(Debug, Clone)]
pub struct Mixpanel {
    pub token: String,
    pub config: Config,
    pub people: MixpanelPeople,
    pub groups: MixpanelGroups,
}

/// The most events that one batch request carries.
pub const MAX_BATCH_SIZE: usize = 50;

impl Mixpanel {
    /// A client for `token`, with the default configuration where none is
    /// given.
    pub fn init(token: &str, config: Option<Config>) -> (r: Self)
        ensures
            r.token@ == token@,
            r.people.token@ == token@,
            r.groups.token@ == token@,
            config is Some ==> r.config == config->Some_0,
            config is None ==> is_default_config(r.config),
    {
        let config = match config {
            Some(c) => c,
            None => Config::default(),
        };
        Mixpanel {
            token: token.to_owned(),
            config,
            people: MixpanelPeople { token: token.to_owned() },
            groups: MixpanelGroups { token: token.to_owned() },
        }
    }

    /// Adds to the properties what every event carries.
    pub fn stamp(&self, props: &mut PropertyMap)
        ensures
            final(props)@ == stamped(old(props)@, self.token@),
    {
        props.insert("token".to_owned(), Value::String(self.token.clone()));
        props.insert("mp_lib".to_owned(), Value::String("rust".to_owned()));
        props.insert("$lib_version".to_owned(), Value::String(LIB_VERSION.to_owned()));
    }

    /// The event to send for `event` with `properties`: it carries the token
    /// and the library's name and version, and a `time` given as a string of
    /// digits is turned into a number.
    pub fn track(&self, event: &str, properties: Option<PropertyMap>) -> (r: Event)
        ensures
            r@.event == event@,
            r@.properties == with_numeric_time(
                stamped(
                    match properties {
                        Some(p) => p@,
                        None => Map::empty(),
                    },
                    self.token@,
                ),
            ),
    {
        let mut props = match properties {
            Some(p) => p,
            None => PropertyMap::new(),
        };
        self.stamp(&mut props);
        let parsed = match props.get("time") {
            Some(time_value) => match time_value.as_str() {
                Some(s) => parse_u64(s),
                None => None,
            },
            None => None,
        };
        if let Some(n) = parsed {
            props.insert("time".to_owned(), Value::Number(Number::PosInt(n)));
        }
        Event { event: event.to_owned(), properties: props }
    }

    /// The event that records `alias` as another name of `distinct_id`.
    pub fn alias(&self, distinct_id: &str, alias: &str) -> (r: Event)
        ensures
            r@.event == "$create_alias"@,
            r@.properties == with_numeric_time(
                stamped(
                    Map::<Seq<char>, ValueView>::empty().insert(
                        "distinct_id"@,
                        text(distinct_id@),
                    ).insert("alias"@, text(alias@)),
                    self.token@,
                ),
            ),
    {
        let mut properties = PropertyMap::new();
        properties.insert("distinct_id".to_owned(), Value::String(distinct_id.to_owned()));
        properties.insert("alias".to_owned(), Value::String(alias.to_owned()));
        self.track("$create_alias", Some(properties))
    }

    /// The seconds since the epoch on the system clock: the whole seconds
    /// of the time that the clock gives in milliseconds.
    pub fn now() -> (r: u64)
        ensures
            exists|millis: u64| r == seconds(millis),
    {
        let millis = millis_or_zero(since_epoch_millis());
        let r = seconds_of(millis);
        assert(r == seconds(millis));
        r
    }
}

} // verus!
