use crate::json::{MemberView, Value, ValueView};
use crate::people::{is_update, update_members};
use crate::plugin::error::Error;
use crate::plugin::events::{lemma_time_key, thousandths};
use crate::plugin::identity::{alias_outcome, AliasOutcome};
use crate::plugin::people::{
    as_lists, first_non_number, first_not_numeric, identified, is_device_id, is_reserved,
    lemma_actions_differ, profile_outcome, request_outcome, unset_names, without_reserved,
    ADD_ACTION, DEVICE_PREFIX,
};
use crate::plugin::persistence::{expiry_after, PersistentDataView, MILLIS_PER_DAY};
use crate::plugin::startup::with_initial_identity;
use crate::plugin::state::{single, MixpanelStateView};
use crate::props::{distinct_keys, lemma_map_value, members_to_map, natural, text};
use vstd::prelude::*;

verus! {

/// A property that was registered as persistent is read back with the
/// value that was registered, at any time at which the record has not
/// expired, and so it is from the record as it is loaded again at that
/// time.
pub proof fn law_registered_property_is_read_back(
    state: MixpanelStateView,
    props: Map<Seq<char>, ValueView>,
    days: Option<u64>,
    now: u64,
    later: u64,
    key: Seq<char>,
)
    requires
        props.contains_key(key),
        !state.register(props, true, days, now).store.expired(later),
    ensures
        state.register(props, true, days, now).get_property(key, later) == Some(props[key]),
        state.register(props, true, days, now).store.loaded(later).visible_property(key, later)
            == Some(props[key]),
{
}

/// A property that was registered in memory only is read back with the
/// value that was registered, unless a stored property of that name is
/// visible.
pub proof fn law_overlay_property_is_read_back(
    state: MixpanelStateView,
    props: Map<Seq<char>, ValueView>,
    days: Option<u64>,
    now: u64,
    later: u64,
    key: Seq<char>,
)
    requires
        props.contains_key(key),
        state.store.visible_property(key, later) is None,
    ensures
        state.register(props, false, days, now).get_property(key, later) == Some(props[key]),
{
}

/// `register_once` fills a key that was absent, keeps the value of a key
/// that was set, and replaces it only where it equals the default that was
/// given.
pub proof fn law_register_once(
    state: MixpanelStateView,
    props: Map<Seq<char>, ValueView>,
    default_value: Option<ValueView>,
    persistent: bool,
    days: Option<u64>,
    now: u64,
    key: Seq<char>,
)
    requires
        props.contains_key(key),
    ensures
        ({
            let held = if persistent {
                state.store.properties
            } else {
                state.overlay
            };
            let after = state.register_once(props, default_value, persistent, days, now);
            let merged = if persistent {
                after.store.properties
            } else {
                after.overlay
            };
            &&& merged.contains_key(key)
            &&& !held.contains_key(key) ==> merged[key] == props[key]
            &&& held.contains_key(key) && default_value != Some(held[key]) ==> merged[key]
                == held[key]
            &&& held.contains_key(key) && default_value == Some(held[key]) ==> merged[key]
                == props[key]
        }),
{
}

/// `register_once` leaves every key alone that it was not given.
pub proof fn law_register_once_keeps_the_rest(
    state: MixpanelStateView,
    props: Map<Seq<char>, ValueView>,
    default_value: Option<ValueView>,
    days: Option<u64>,
    now: u64,
    key: Seq<char>,
)
    requires
        !props.contains_key(key),
    ensures
        ({
            let after = state.register_once(props, default_value, true, days, now);
            &&& after.store.properties.contains_key(key) == state.store.properties.contains_key(key)
            &&& state.store.properties.contains_key(key) ==> after.store.properties[key]
                == state.store.properties[key]
        }),
{
}

/// A stored property that was unregistered is no longer read from the
/// record, at any time, nor from the record as it is loaded again; and a
/// property held in memory that was unregistered is no longer held. What
/// `get_property` then gives is the value of the other place, where it has
/// one.
pub proof fn law_unregistered_property_is_gone(
    state: MixpanelStateView,
    key: Seq<char>,
    later: u64,
)
    ensures
        state.unregister(key, true).store.visible_property(key, later) is None,
        state.unregister(key, true).store.loaded(later).visible_property(key, later) is None,
        !state.overlay.contains_key(key) ==> state.unregister(key, true).get_property(key, later)
            is None,
        !state.unregister(key, false).overlay.contains_key(key),
        state.store.visible_property(key, later) is None ==> state.unregister(
            key,
            false,
        ).get_property(key, later) is None,
{
}

/// Registering with zero days clears the expiry. Registering with a
/// positive number of days sets the expiry to that many days after now
/// where the record has no expiry, where that time is later than the
/// expiry, or where the expiry has passed; otherwise the expiry stays.
/// Registering without a number of days leaves the expiry alone.
pub proof fn law_expiry_after_register(
    store: PersistentDataView,
    props: Map<Seq<char>, ValueView>,
    days: u64,
    now: u64,
)
    ensures
        store.register(props, Some(0), now).store_expires_at is None,
        store.register(props, None, now).store_expires_at == store.store_expires_at,
        days > 0 && now + days * MILLIS_PER_DAY <= u64::MAX ==> expiry_after(now, days) == now
            + days * MILLIS_PER_DAY,
        days > 0 && (store.store_expires_at is None || expiry_after(now, days)
            > store.store_expires_at->Some_0 || now >= store.store_expires_at->Some_0)
            ==> store.register(props, Some(days), now).store_expires_at == Some(
            expiry_after(now, days),
        ),
        days > 0 && store.store_expires_at is Some && expiry_after(now, days)
            <= store.store_expires_at->Some_0 && now < store.store_expires_at->Some_0
            ==> store.register(props, Some(days), now).store_expires_at == store.store_expires_at,
{
}

/// Once the expiry has passed, no stored property is visible, and loading
/// the record gives a fresh one.
pub proof fn law_expired_record_is_empty(store: PersistentDataView, now: u64, key: Seq<char>)
    requires
        store.store_expires_at is Some,
        now >= store.store_expires_at->Some_0,
    ensures
        store.visible_properties(now) == Map::<Seq<char>, ValueView>::empty(),
        store.visible_property(key, now) is None,
        store.loaded(now) == PersistentDataView::empty(),
{
}

/// `identify` with an id that stands for a device changes nothing and
/// emits no event.
pub proof fn law_device_id_is_refused(state: MixpanelStateView, id: Seq<char>, now: u64)
    requires
        is_device_id(id),
    ensures
        state.identify(id, now) == state,
        state.identify_properties(id) is None,
{
}

/// After `identify` with an id that does not stand for a device, the id is
/// the distinct id of the record, and the stored properties hold it as
/// `distinct_id` and as `$user_id`.
pub proof fn law_identify_sets_the_identity(state: MixpanelStateView, id: Seq<char>, now: u64)
    requires
        !is_device_id(id),
    ensures
        state.identify(id, now).store.distinct_id == Some(id),
        state.store.distinct_id != Some(id) ==> state.identify(id, now).store.properties[
            "distinct_id"@
        ] == text(id) && state.identify(id, now).store.properties["$user_id"@] == text(id),
        state.identify(id, now).overlay == state.overlay,
{
    lemma_identity_keys();
}

/// Where `identify` takes an id in place of a previous one and no device
/// id is visible, the previous id is stored as `$device_id`, with the flag
/// that says so. Where a device id is visible, it stays as it is.
pub proof fn law_identify_records_the_previous_id(
    state: MixpanelStateView,
    id: Seq<char>,
    now: u64,
)
    requires
        !is_device_id(id),
        state.store.distinct_id is Some,
        state.store.distinct_id != Some(id),
    ensures
        state.store.visible_property("$device_id"@, now) is None ==> state.identify(
            id,
            now,
        ).store.properties["$device_id"@] == text(state.store.distinct_id->Some_0)
            && state.identify(id, now).store.properties["$had_persisted_distinct_id"@]
            == ValueView::Bool(true),
        state.store.visible_property("$device_id"@, now) is Some ==> state.identify(
            id,
            now,
        ).store.visible_property("$device_id"@, now) == state.store.visible_property(
            "$device_id"@,
            now,
        ),
{
    lemma_identity_keys();
    lemma_alias_key();
    let alias = state.pending_alias(now);
    let s1 = if alias is Some && alias != Some(id) {
        state.unregister("$alias"@, true)
    } else {
        state
    };
    let s2 = s1.register(single("$user_id"@, text(id)), true, None, now);
    assert(s2.store.store_expires_at == state.store.store_expires_at);
    assert(s2.store.properties.contains_key("$device_id"@)
        == state.store.properties.contains_key("$device_id"@));
    assert(s2.store.visible_property("$device_id"@, now) is None
        == state.store.visible_property("$device_id"@, now) is None);
    if state.store.visible_property("$device_id"@, now) is None {
        let recorded = single("$device_id"@, text(state.store.distinct_id->Some_0)).insert(
            "$had_persisted_distinct_id"@,
            ValueView::Bool(true),
        );
        let s3 = s2.register(recorded, true, None, now);
        assert(s3.store.properties["$device_id"@] == text(state.store.distinct_id->Some_0));
        assert(s3.store.properties["$had_persisted_distinct_id"@] == ValueView::Bool(true));
    } else {
        assert(s2.store.properties["$device_id"@] == state.store.properties["$device_id"@]);
    }
}

/// An alias that equals the current distinct id creates no alias: the call
/// succeeds, hands back no event that creates one, and leaves the state as
/// `identify` with that id does, which is as it was.
pub proof fn law_alias_of_current_id(
    r: Result<AliasOutcome, Error>,
    before: MixpanelStateView,
    after: MixpanelStateView,
    alias: Seq<char>,
    now: u64,
)
    requires
        before.store.distinct_id == Some(alias),
        alias_outcome(r, before, after, alias, None, now),
    ensures
        r is Ok,
        r->Ok_0 is Identified,
        r->Ok_0->Identified_0 is None,
        after == before.identify(alias, now),
        after == before,
{
}

/// The composed event holds the distinct id and the time in seconds; a
/// property of the call stands above one held in memory, and that above a
/// stored one that is visible.
pub proof fn law_event_composition(
    state: MixpanelStateView,
    event_name: Seq<char>,
    input: Map<Seq<char>, ValueView>,
    now_ms: u64,
    key: Seq<char>,
)
    requires
        state.store.distinct_id is Some,
        key != "distinct_id"@,
        key != "time"@,
        key != "$duration"@,
    ensures
        ({
            let composed = state.composed(event_name, input, now_ms);
            let stored = state.store.visible_properties(now_ms);
            &&& composed.contains_key("distinct_id"@)
            &&& composed["distinct_id"@] == text(state.store.distinct_id->Some_0)
            &&& composed.contains_key("time"@)
            &&& composed["time"@] == natural(now_ms / 1000)
            &&& composed.contains_key(key) == (input.contains_key(key)
                || state.overlay.contains_key(key) || stored.contains_key(key))
            &&& input.contains_key(key) ==> composed[key] == input[key]
            &&& !input.contains_key(key) && state.overlay.contains_key(key) ==> composed[key]
                == state.overlay[key]
            &&& !input.contains_key(key) && !state.overlay.contains_key(key) && stored.contains_key(
                key,
            ) ==> composed[key] == stored[key]
        }),
{
    lemma_time_key();
}

/// An event that is tracked after its timer was started carries the time
/// between the two, in thousandths of a second, as `$duration`. The timer
/// is then closed: the event tracked again carries no duration of its own.
pub proof fn law_timer_is_measured_once(
    state: MixpanelStateView,
    event_name: Seq<char>,
    input: Map<Seq<char>, ValueView>,
    start_ms: u64,
    now_ms: u64,
    later_ms: u64,
)
    requires
        state.store.distinct_id is Some,
        start_ms <= now_ms,
    ensures
        ({
            let timed = state.with_store(state.store.with_timer(event_name, start_ms));
            let first = timed.composed(event_name, input, now_ms);
            let closed = timed.with_store(timed.store.without_timer(event_name));
            let second = closed.composed(event_name, input, later_ms);
            let beneath = closed.store.visible_properties(later_ms).union_prefer_right(
                closed.overlay,
            ).union_prefer_right(input);
            &&& first.contains_key("$duration"@)
            &&& first["$duration"@] == thousandths((now_ms - start_ms) as u64)
            &&& !closed.store.event_timers.contains_key(event_name)
            &&& second.contains_key("$duration"@) == beneath.contains_key("$duration"@)
            &&& beneath.contains_key("$duration"@) ==> second["$duration"@] == beneath[
                "$duration"@
            ]
        }),
{
    lemma_duration_key();
}

/// Where an object holds a property that is not reserved and whose value
/// is no number, there is a first such property: `increment` then fails
/// with its name, and nothing is handed back to be sent.
pub proof fn law_increment_wants_numbers(members: Seq<MemberView>, i: int)
    requires
        0 <= i < members.len(),
        !is_reserved(members[i].key),
        !members[i].value.is_number(),
    ensures
        0 <= first_non_number(members) <= i,
        !is_reserved(members[first_non_number(members)].key),
        !members[first_non_number(members)].value.is_number(),
    decreases members.len(),
{
    if is_reserved(members[0].key) || members[0].value.is_number() {
        assert(members.drop_first()[i - 1] == members[i]);
        law_increment_wants_numbers(members.drop_first(), i - 1);
        assert(members.drop_first()[first_non_number(members.drop_first())] == members[
            first_non_number(members.drop_first()) + 1
        ]);
    }
}

/// Members that all hold numbers hold no first one that does not.
pub proof fn lemma_all_numeric(members: Seq<MemberView>)
    requires
        forall|i: int| 0 <= i < members.len() ==> (#[trigger] members[i]).value.is_number(),
    ensures
        first_not_numeric(members) == members.len(),
    decreases members.len(),
{
    if members.len() > 0 {
        assert(members[0].value.is_number());
        assert forall|i: int| 0 <= i < members.drop_first().len() implies (
        #[trigger] members.drop_first()[i]).value.is_number() by {
            assert(members.drop_first()[i] == members[i + 1]);
        }
        lemma_all_numeric(members.drop_first());
    }
}

/// Where the caller has given an identity, amounts that are all numbers,
/// whole or not, are handed back as one `$add` update that holds each as
/// it was given: no number makes `increment` fail.
pub proof fn law_numbers_are_added(
    r: Result<Option<Value>, Error>,
    distinct_id: Option<Seq<char>>,
    token: Seq<char>,
    props: Map<Seq<char>, ValueView>,
)
    requires
        identified(distinct_id),
        props != Map::<Seq<char>, ValueView>::empty(),
        forall|k: Seq<char>| #[trigger] props.contains_key(k) ==> props[k].is_number(),
        profile_outcome(r, distinct_id, token, ADD_ACTION@, props),
    ensures
        r is Ok,
        r->Ok_0 is Some,
        exists|body: Seq<MemberView>|
            distinct_keys(body) && members_to_map(body) == props && is_update(
                r->Ok_0->Some_0@,
                update_members(
                    token,
                    "$distinct_id"@,
                    distinct_id->Some_0,
                    ADD_ACTION@,
                    ValueView::Object(body),
                    None,
                ),
            ),
{
    lemma_actions_differ();
    let members = choose|members: Seq<MemberView>|
        distinct_keys(members) && members_to_map(members) == props && request_outcome(
            r,
            distinct_id,
            token,
            ADD_ACTION@,
            members,
        );
    assert forall|i: int| 0 <= i < members.len() implies (
    #[trigger] members[i]).value.is_number() by {
        lemma_map_value(members, i);
    }
    lemma_all_numeric(members);
}

/// After `reset` on a machine with the given id, the identity of the
/// machine is the distinct id of the record; nothing is held in memory, no
/// timer is open and the record does not expire; and the properties are
/// the identity and the id of the machine, and no others.
pub proof fn law_reset_gives_a_device_identity(
    state: MixpanelStateView,
    machine_id: Seq<char>,
    now: u64,
)
    ensures
        ({
            let after = state.reset_to(machine_id, now);
            &&& after.store.distinct_id == Some(DEVICE_PREFIX@ + machine_id)
            &&& is_device_id(DEVICE_PREFIX@ + machine_id)
            &&& after.overlay == Map::<Seq<char>, ValueView>::empty()
            &&& after.store.event_timers == Map::<Seq<char>, u64>::empty()
            &&& after.store.store_expires_at is None
            &&& after.store.alias is None
            &&& after.store.properties == MixpanelStateView::device_identity(machine_id)
            &&& after.store.properties["distinct_id"@] == text(DEVICE_PREFIX@ + machine_id)
            &&& after.store.properties["$device_id"@] == text(machine_id)
        }),
{
    lemma_identity_keys();
    let after = state.reset_to(machine_id, now);
    assert((DEVICE_PREFIX@ + machine_id).subrange(0, DEVICE_PREFIX@.len() as int)
        =~= DEVICE_PREFIX@);
    assert(after.store.properties =~= MixpanelStateView::device_identity(machine_id));
}

/// `union` sends a value that is no array as the array that holds it
/// alone, and an array as it is.
pub proof fn law_union_wraps_scalars(props: Map<Seq<char>, ValueView>, key: Seq<char>)
    requires
        props.contains_key(key),
        !is_reserved(key),
    ensures
        as_lists(without_reserved(props)).contains_key(key),
        !(props[key] is Array) ==> as_lists(without_reserved(props))[key] == ValueView::Array(
            seq![props[key]],
        ),
        props[key] is Array ==> as_lists(without_reserved(props))[key] == props[key],
{
}

/// Registering and unregistering properties and starting and closing timers
/// leave the distinct id of the record alone, and start-up sets it only
/// where none is stored: what changes an identity that is set is
/// `identify`, `alias`, `reset` or `set_distinct_id`.
pub proof fn law_distinct_id_is_kept(
    state: MixpanelStateView,
    props: Map<Seq<char>, ValueView>,
    default_value: Option<ValueView>,
    persistent: bool,
    days: Option<u64>,
    now: u64,
    name: Seq<char>,
    machine_id: Result<String, String>,
)
    ensures
        state.register(props, persistent, days, now).store.distinct_id == state.store.distinct_id,
        state.register_once(props, default_value, persistent, days, now).store.distinct_id
            == state.store.distinct_id,
        state.unregister(name, persistent).store.distinct_id == state.store.distinct_id,
        state.store.with_timer(name, now).distinct_id == state.store.distinct_id,
        state.store.without_timer(name).distinct_id == state.store.distinct_id,
        state.store.distinct_id is Some ==> with_initial_identity(
            state.store,
            machine_id,
            now,
        ).distinct_id == state.store.distinct_id,
{
}

/// The properties that a profile operation sends hold no reserved name,
/// whatever the caller gave.
pub proof fn law_profile_updates_hold_no_reserved_name(
    props: Map<Seq<char>, ValueView>,
    items: Seq<ValueView>,
    name: Seq<char>,
)
    requires
        is_reserved(name),
    ensures
        !without_reserved(props).contains_key(name),
        !as_lists(without_reserved(props)).contains_key(name),
        !unset_names(items).contains_key(name),
{
}

/// The names that hold the identity differ from one another.
pub proof fn lemma_identity_keys()
    ensures
        "distinct_id"@ != "$user_id"@,
        "distinct_id"@ != "$device_id"@,
        "distinct_id"@ != "$had_persisted_distinct_id"@,
        "$user_id"@ != "$device_id"@,
        "$user_id"@ != "$had_persisted_distinct_id"@,
        "$device_id"@ != "$had_persisted_distinct_id"@,
{
    reveal_strlit("distinct_id");
    reveal_strlit("$user_id");
    reveal_strlit("$device_id");
    reveal_strlit("$had_persisted_distinct_id");
    assert("distinct_id"@.len() == 11);
    assert("$user_id"@.len() == 8);
    assert("$device_id"@.len() == 10);
    assert("$had_persisted_distinct_id"@.len() == 26);
}

/// The name `$alias` differs from the names that hold the identity.
pub proof fn lemma_alias_key()
    ensures
        "$alias"@ != "distinct_id"@,
        "$alias"@ != "$user_id"@,
        "$alias"@ != "$device_id"@,
        "$alias"@ != "$had_persisted_distinct_id"@,
{
    reveal_strlit("$alias");
    reveal_strlit("distinct_id");
    reveal_strlit("$user_id");
    reveal_strlit("$device_id");
    reveal_strlit("$had_persisted_distinct_id");
    assert("$alias"@.len() == 6);
    assert("distinct_id"@.len() == 11);
    assert("$user_id"@.len() == 8);
    assert("$device_id"@.len() == 10);
    assert("$had_persisted_distinct_id"@.len() == 26);
}

/// The name `$duration` differs from `distinct_id` and `time`.
pub proof fn lemma_duration_key()
    ensures
        "$duration"@ != "distinct_id"@,
        "$duration"@ != "time"@,
        "distinct_id"@ != "time"@,
{
    reveal_strlit("$duration");
    reveal_strlit("distinct_id");
    reveal_strlit("time");
    assert("$duration"@.len() == 9);
    assert("distinct_id"@.len() == 11);
    assert("time"@.len() == 4);
}

} // verus!
