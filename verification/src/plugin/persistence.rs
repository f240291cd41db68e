use crate::json::{Value, ValueView};
use crate::json::{members_view, MemberView};
use crate::props::{distinct_keys, lemma_map_keys, lemma_map_push, members_to_map, PropertyMap};
use crate::plugin::layout::{decoded, loaded_record, BAD_LAYOUT};
use crate::timers::TimerMap;
use vstd::prelude::*;

verus! {

/// Why the stored record could not be read or written.
#[derive(Debug, Clone)]
pub enum PersistenceError {
    IoError(String),
    SerdeError(String),
    PathError(String),
    LockError(String),
}

/// Where a registration goes, and for how long it is kept.
#[derive(Debug, Clone)]
pub struct RegisterOptions {
    pub persistent: bool,
    pub days: Option<u64>,
}

/// Registrations are persistent unless the caller says otherwise.
pub fn default_persistent() -> (r: bool)
    ensures
        r,
{
    true
}

impl Default for RegisterOptions {
    fn default() -> (r: Self)
        ensures
            r.persistent,
            r.days is None,
    {
        RegisterOptions { persistent: true, days: None }
    }
}

/// The `persistent` flag that an options value asks for.
pub open spec fn options_persistent(options: Option<ValueView>) -> bool {
    match options {
        Some(ValueView::Object(members)) => {
            let m = members_to_map(members);
            if m.contains_key("persistent"@) {
                match m["persistent"@].as_bool() {
                    Some(b) => b,
                    None => true,
                }
            } else {
                true
            }
        },
        _ => true,
    }
}

/// The number of days that an options value asks for.
pub open spec fn options_days(options: Option<ValueView>) -> Option<u64> {
    match options {
        Some(ValueView::Object(members)) => {
            let m = members_to_map(members);
            if m.contains_key("days"@) {
                m["days"@].as_u64()
            } else {
                None
            }
        },
        _ => None,
    }
}

/// The view of an optional value.
pub open spec fn option_view(v: Option<Value>) -> Option<ValueView> {
    match v {
        Some(v) => Some(v@),
        None => None,
    }
}

impl RegisterOptions {
    /// Reads the options from a JSON value. Anything but an object gives the
    /// defaults; in an object, `persistent` counts where it is a boolean and
    /// `days` where it is a non-negative integer.
    pub fn parse_options(options: Option<Value>) -> (r: RegisterOptions)
        ensures
            r.persistent == options_persistent(option_view(options)),
            r.days == options_days(option_view(options)),
    {
        match options {
            Some(Value::Object(members)) => {
                proof {
                    crate::json::lemma_object_view(members);
                }
                let map = PropertyMap::from_members(members);
                let persistent = match map.get("persistent") {
                    Some(v) => match v.as_bool() {
                        Some(b) => b,
                        None => true,
                    },
                    None => true,
                };
                let days = match map.get("days") {
                    Some(v) => v.as_u64(),
                    None => None,
                };
                RegisterOptions { persistent, days }
            },
            _ => RegisterOptions { persistent: true, days: None },
        }
    }
}

/// The number of milliseconds in a day.
pub const MILLIS_PER_DAY: u64 = 86_400_000;

/// The time `days` days after `now`, in milliseconds since the epoch; the
/// largest time stamp where that would lie beyond it.
pub open spec fn expiry_after(now: u64, days: u64) -> u64 {
    if now + days * MILLIS_PER_DAY <= u64::MAX {
        (now + days * MILLIS_PER_DAY) as u64
    } else {
        u64::MAX
    }
}

/// The expiry after a registration that asks for `days`: unchanged where no
/// number of days is given, none for zero days, and otherwise the new expiry
/// where it is later than the current one or the current one has passed.
pub open spec fn next_expiry(current: Option<u64>, days: Option<u64>, now: u64) -> Option<u64> {
    match days {
        None => current,
        Some(d) => if d == 0 {
            None
        } else {
            match current {
                None => Some(expiry_after(now, d)),
                Some(c) => if expiry_after(now, d) > c || now >= c {
                    Some(expiry_after(now, d))
                } else {
                    Some(c)
                },
            }
        },
    }
}

/// Whether `register_once` writes the incoming value of `k`: the key is
/// absent, or a default is given and the value held equals it.
pub open spec fn once_writes(
    held: Map<Seq<char>, ValueView>,
    default_value: Option<ValueView>,
    k: Seq<char>,
) -> bool {
    !held.contains_key(k) || (default_value is Some && held[k] == default_value->Some_0)
}

/// The properties after `register_once` of `incoming` on `held`.
pub open spec fn once_merged(
    held: Map<Seq<char>, ValueView>,
    incoming: Map<Seq<char>, ValueView>,
    default_value: Option<ValueView>,
) -> Map<Seq<char>, ValueView> {
    Map::new(
        |k: Seq<char>| held.contains_key(k) || incoming.contains_key(k),
        |k: Seq<char>|
            if incoming.contains_key(k) && once_writes(held, default_value, k) {
                incoming[k]
            } else {
                held[k]
            },
    )
}

/// Whether `register_once` of `incoming` on `held` writes anything.
pub open spec fn once_changes(
    held: Map<Seq<char>, ValueView>,
    incoming: Map<Seq<char>, ValueView>,
    default_value: Option<ValueView>,
) -> bool {
    exists|k: Seq<char>| incoming.contains_key(k) && once_writes(held, default_value, k)
}

/// The record that is kept for one installation.
#[derive(Debug, Clone)]
pub struct PersistentData {
    pub distinct_id: Option<String>,
    pub alias: Option<String>,
    pub event_timers: TimerMap,
    pub properties: PropertyMap,
    pub store_expires_at: Option<u64>,
}

/// The mathematical content of a [`PersistentData`].
pub struct PersistentDataView {
    pub distinct_id: Option<Seq<char>>,
    pub alias: Option<Seq<char>>,
    pub event_timers: Map<Seq<char>, u64>,
    pub properties: Map<Seq<char>, ValueView>,
    pub store_expires_at: Option<u64>,
}

/// The view of an optional string.
pub open spec fn string_view(s: Option<String>) -> Option<Seq<char>> {
    match s {
        Some(s) => Some(s@),
        None => None,
    }
}

impl View for PersistentData {
    type V = PersistentDataView;

    open spec fn view(&self) -> PersistentDataView {
        PersistentDataView {
            distinct_id: string_view(self.distinct_id),
            alias: string_view(self.alias),
            event_timers: self.event_timers@,
            properties: self.properties@,
            store_expires_at: self.store_expires_at,
        }
    }
}

impl PersistentDataView {
    /// The record of a fresh installation.
    pub open spec fn empty() -> Self {
        PersistentDataView {
            distinct_id: None,
            alias: None,
            event_timers: Map::empty(),
            properties: Map::empty(),
            store_expires_at: None,
        }
    }

    /// Whether the record has expired at `now`.
    pub open spec fn expired(self, now: u64) -> bool {
        self.store_expires_at is Some && now >= self.store_expires_at->Some_0
    }

    /// The properties that a reader sees at `now`: none once the record has
    /// expired.
    pub open spec fn visible_properties(self, now: u64) -> Map<Seq<char>, ValueView> {
        if self.expired(now) {
            Map::empty()
        } else {
            self.properties
        }
    }

    /// What a reader sees of one property at `now`.
    pub open spec fn visible_property(self, key: Seq<char>, now: u64) -> Option<ValueView> {
        if self.visible_properties(now).contains_key(key) {
            Some(self.visible_properties(now)[key])
        } else {
            None
        }
    }

    /// The record after loading at `now`: a fresh one where it has expired.
    pub open spec fn loaded(self, now: u64) -> Self {
        if self.expired(now) {
            Self::empty()
        } else {
            self
        }
    }

    /// The record after `register`.
    pub open spec fn register(
        self,
        props: Map<Seq<char>, ValueView>,
        days: Option<u64>,
        now: u64,
    ) -> Self {
        PersistentDataView {
            properties: self.properties.union_prefer_right(props),
            store_expires_at: next_expiry(self.store_expires_at, days, now),
            ..self
        }
    }

    /// The record after `register_once`.
    pub open spec fn register_once(
        self,
        props: Map<Seq<char>, ValueView>,
        default_value: Option<ValueView>,
        days: Option<u64>,
        now: u64,
    ) -> Self {
        PersistentDataView {
            properties: once_merged(self.properties, props, default_value),
            store_expires_at: if once_changes(self.properties, props, default_value) {
                next_expiry(self.store_expires_at, days, now)
            } else {
                self.store_expires_at
            },
            ..self
        }
    }

    /// The record after `unregister`.
    pub open spec fn unregister(self, key: Seq<char>) -> Self {
        PersistentDataView { properties: self.properties.remove(key), ..self }
    }

    /// The record with another distinct id.
    pub open spec fn with_distinct_id(self, id: Option<Seq<char>>) -> Self {
        PersistentDataView { distinct_id: id, ..self }
    }

    /// The record after a timer has been started.
    pub open spec fn with_timer(self, event: Seq<char>, timestamp: u64) -> Self {
        PersistentDataView { event_timers: self.event_timers.insert(event, timestamp), ..self }
    }

    /// The record after a timer has been closed.
    pub open spec fn without_timer(self, event: Seq<char>) -> Self {
        PersistentDataView { event_timers: self.event_timers.remove(event), ..self }
    }
}

impl Default for PersistentData {
    fn default() -> (r: Self)
        ensures
            r@ == PersistentDataView::empty(),
    {
        PersistentData {
            distinct_id: None,
            alias: None,
            event_timers: TimerMap::new(),
            properties: PropertyMap::new(),
            store_expires_at: None,
        }
    }
}

/// The time `days` days after `now`, saturating at the largest time stamp.
pub fn expiry_time(now: u64, days: u64) -> (r: u64)
    ensures
        r == expiry_after(now, days),
{
    if days <= (u64::MAX - now) / MILLIS_PER_DAY {
        assert(days * MILLIS_PER_DAY <= u64::MAX - now) by (nonlinear_arith)
            requires
                days <= (u64::MAX - now) / (MILLIS_PER_DAY as int),
                MILLIS_PER_DAY == 86_400_000,
        ;
        now + days * MILLIS_PER_DAY
    } else {
        assert(days * MILLIS_PER_DAY > u64::MAX - now) by (nonlinear_arith)
            requires
                days > (u64::MAX - now) / (MILLIS_PER_DAY as int),
                MILLIS_PER_DAY == 86_400_000,
        ;
        u64::MAX
    }
}

/// The expiry after a registration that asks for `days` at `now`.
pub fn updated_expiry(current: Option<u64>, days: Option<u64>, now: u64) -> (r: Option<u64>)
    ensures
        r == next_expiry(current, days, now),
{
    match days {
        None => current,
        Some(d) => {
            if d > 0 {
                let expires_at = expiry_time(now, d);
                match current {
                    None => Some(expires_at),
                    Some(c) => if expires_at > c || now >= c {
                        Some(expires_at)
                    } else {
                        Some(c)
                    },
                }
            } else {
                None
            }
        },
    }
}

/// Whether both optional strings hold the same.
pub fn same_text(a: &Option<String>, b: &Option<String>) -> (r: bool)
    ensures
        r == (string_view(*a) == string_view(*b)),
{
    match (a, b) {
        (Some(x), Some(y)) => *x == *y,
        (None, None) => true,
        _ => false,
    }
}

impl PersistentData {
    /// A copy with the same content.
    pub fn duplicate(&self) -> (r: Self)
        ensures
            r@ == self@,
    {
        PersistentData {
            distinct_id: self.distinct_id.clone(),
            alias: self.alias.clone(),
            event_timers: self.event_timers.duplicate(),
            properties: self.properties.duplicate(),
            store_expires_at: self.store_expires_at,
        }
    }

    /// Whether both records hold the same: a record that is the same as the
    /// one written last needs no writing.
    pub fn same_as(&self, other: &PersistentData) -> (r: bool)
        ensures
            r == (self@ == other@),
    {
        same_text(&self.distinct_id, &other.distinct_id) && same_text(&self.alias, &other.alias)
            && self.event_timers.same_as(&other.event_timers) && self.properties.same_as(
            &other.properties,
        ) && self.store_expires_at == other.store_expires_at
    }

    /// Whether the record has expired at `now`.
    pub fn is_expired(&self, now: u64) -> (r: bool)
        ensures
            r == self@.expired(now),
    {
        match self.store_expires_at {
            Some(expires_at) => now >= expires_at,
            None => false,
        }
    }
}

/// Sets in `held` each property of `props` that is absent, or whose value
/// equals `default_value` where one is given. Returns whether anything was
/// set.
pub fn merge_once(
    held: &mut PropertyMap,
    props: PropertyMap,
    default_value: &Option<Value>,
) -> (changed: bool)
    ensures
        final(held)@ == once_merged(old(held)@, props@, option_view(*default_value)),
        changed == once_changes(old(held)@, props@, option_view(*default_value)),
{
    let ghost before_all = held@;
    let ghost dv = option_view(*default_value);
    let ghost incoming = props.members();
    proof {
        props.lemma_members();
    }
    let members = props.into_members();
    let mut changed = false;
    proof {
        assert(incoming.take(0) =~= Seq::<MemberView>::empty());
        assert(held@ =~= once_merged(before_all, members_to_map(incoming.take(0)), dv));
    }
    for entry in it: members
        invariant
            it.seq() == members@,
            incoming == members_view(members@),
            distinct_keys(incoming),
            dv == option_view(*default_value),
            held@ == once_merged(before_all, members_to_map(incoming.take(it.index() as int)), dv),
            changed == once_changes(
                before_all,
                members_to_map(incoming.take(it.index() as int)),
                dv,
            ),
    {
        let ghost i = it.index() as int;
        let ghost before = members_to_map(incoming.take(i));
        let ghost x = MemberView { key: entry.0@, value: entry.1@ };
        proof {
            assert(incoming.take(i + 1) =~= incoming.take(i).push(x));
            lemma_map_push(incoming.take(i), x);
            lemma_map_keys(incoming.take(i), x.key);
            if before.contains_key(x.key) {
                let j = choose|j: int|
                    0 <= j < incoming.take(i).len() && incoming.take(i)[j].key == x.key;
                assert(incoming[j].key == incoming[i].key);
            }
        }
        let writes = match held.get(entry.0.as_str()) {
            Some(existing) => match default_value {
                Some(default) => existing.equals(default),
                None => false,
            },
            None => true,
        };
        assert(writes == once_writes(before_all, dv, x.key));
        if writes {
            held.insert(entry.0, entry.1);
            changed = true;
        }
        proof {
            assert(held@ =~= once_merged(before_all, before.insert(x.key, x.value), dv));
            if once_changes(before_all, before, dv) {
                let k = choose|k: Seq<char>|
                    before.contains_key(k) && once_writes(before_all, dv, k);
                assert(before.insert(x.key, x.value).contains_key(k));
            }
            if writes {
                assert(before.insert(x.key, x.value).contains_key(x.key));
            }
        }
    }
    proof {
        assert(incoming.take(incoming.len() as int) =~= incoming);
    }
    changed
}

/// The store of one installation: the record in memory. Reading and
/// writing the backing file is the caller's part.
#[derive(Debug)]
pub struct Persistence {
    pub data: PersistentData,
}

impl View for Persistence {
    type V = PersistentDataView;

    open spec fn view(&self) -> PersistentDataView {
        self.data@
    }
}

impl Persistence {
    /// The store at start-up. `stored` is the JSON value that the backing
    /// file held, or an error where the file could not be read or held no
    /// JSON; `Ok(None)` says that there is no file. A record that is
    /// missing, unreadable, without the layout or expired gives a fresh
    /// one.
    pub fn new(stored: Result<Option<Value>, PersistenceError>, now: u64) -> (r: Self)
        ensures
            r@ == loaded_record(stored, now),
    {
        match Self::load_sync(stored, now) {
            Ok(data) => Persistence { data },
            Err(_) => Persistence { data: PersistentData::default() },
        }
    }

    /// The record to start from: the stored one unless it has expired at
    /// `now`, a fresh one where there is no file, and the error where the
    /// file could not be read, held no JSON, or does not have the layout.
    pub fn load_sync(stored: Result<Option<Value>, PersistenceError>, now: u64) -> (r: Result<
        PersistentData,
        PersistenceError,
    >)
        ensures
            match stored {
                Ok(Some(v)) => match decoded(v@) {
                    Some(d) => r is Ok && r->Ok_0@ == d.loaded(now),
                    None => r is Err && (r->Err_0 matches PersistenceError::SerdeError(m) && m@
                        == BAD_LAYOUT@),
                },
                Ok(None) => r is Ok && r->Ok_0@ == PersistentDataView::empty(),
                Err(e) => r == Err::<PersistentData, PersistenceError>(e),
            },
    {
        match stored {
            Ok(Some(v)) => match PersistentData::from_value(v) {
                Ok(data) => {
                    if data.is_expired(now) {
                        Ok(PersistentData::default())
                    } else {
                        Ok(data)
                    }
                },
                Err(e) => Err(e),
            },
            Ok(None) => Ok(PersistentData::default()),
            Err(e) => Err(e),
        }
    }

    /// A copy of the record, to be written to the backing file.
    pub fn snapshot(&self) -> (r: PersistentData)
        ensures
            r@ == self@,
    {
        self.data.duplicate()
    }

    /// Merges `props` into the stored properties, a given value replacing
    /// the one held, and updates the expiry as `days` asks.
    pub fn register(&mut self, props: PropertyMap, days: Option<u64>, now: u64)
        ensures
            final(self)@ == old(self)@.register(props@, days, now),
    {
        self.data.properties.extend(props);
        self.data.store_expires_at = updated_expiry(self.data.store_expires_at, days, now);
    }

    /// Sets each property of `props` that is absent, or whose value equals
    /// `default_value` where one is given. Where anything was set, updates
    /// the expiry as `days` asks. Returns whether anything was set.
    pub fn register_once(
        &mut self,
        props: PropertyMap,
        default_value: Option<Value>,
        days: Option<u64>,
        now: u64,
    ) -> (changed: bool)
        ensures
            final(self)@ == old(self)@.register_once(props@, option_view(default_value), days, now),
            changed == once_changes(old(self)@.properties, props@, option_view(default_value)),
    {
        let changed = merge_once(&mut self.data.properties, props, &default_value);
        if changed {
            self.data.store_expires_at = updated_expiry(self.data.store_expires_at, days, now);
        }
        changed
    }

    /// Removes a stored property. Returns whether it was there.
    pub fn unregister(&mut self, property_name: &str) -> (changed: bool)
        ensures
            final(self)@ == old(self)@.unregister(property_name@),
            changed == old(self)@.properties.contains_key(property_name@),
    {
        self.data.properties.remove(property_name).is_some()
    }

    /// The stored properties as a reader sees them at `now`: none once the
    /// record has expired.
    pub fn get_properties(&self, now: u64) -> (r: PropertyMap)
        ensures
            r@ == self@.visible_properties(now),
    {
        if self.data.is_expired(now) {
            PropertyMap::new()
        } else {
            self.data.properties.duplicate()
        }
    }

    /// One stored property as a reader sees it at `now`: none where it is
    /// not set or the record has expired.
    pub fn get_property(&self, key: &str, now: u64) -> (r: Option<Value>)
        ensures
            option_view(r) == self@.visible_property(key@, now),
    {
        if self.data.is_expired(now) {
            None
        } else {
            match self.data.properties.get(key) {
                Some(v) => Some(v.duplicate()),
                None => None,
            }
        }
    }

    pub fn get_distinct_id(&self) -> (r: Option<String>)
        ensures
            r == self.data.distinct_id,
    {
        self.data.distinct_id.clone()
    }

    pub fn set_distinct_id(&mut self, id: Option<String>)
        ensures
            final(self)@ == old(self)@.with_distinct_id(string_view(id)),
    {
        self.data.distinct_id = id;
    }

    /// Starts the timer of `event` at `timestamp`, replacing an open one.
    pub fn set_event_timer(&mut self, event: String, timestamp: u64)
        ensures
            final(self)@ == old(self)@.with_timer(event@, timestamp),
    {
        self.data.event_timers.insert(event, timestamp);
    }

    /// Closes the timer of `event`, and returns its start time.
    pub fn remove_event_timer(&mut self, event: &str) -> (r: Option<u64>)
        ensures
            final(self)@ == old(self)@.without_timer(event@),
            r == if old(self)@.event_timers.contains_key(event@) {
                Some(old(self)@.event_timers[event@])
            } else {
                None
            },
    {
        self.data.event_timers.remove(event)
    }

    /// Replaces the record by a fresh one.
    pub fn clear_all_data(&mut self)
        ensures
            final(self)@ == PersistentDataView::empty(),
    {
        self.data = PersistentData::default();
    }
}

} // verus!
