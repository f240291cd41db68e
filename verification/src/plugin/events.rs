use crate::client::{stamped, Event, EventView};
use crate::json::{Number, NumberView, Value, ValueView};
use crate::plugin::error::Error;
use crate::plugin::state::{parsed_props, MixpanelState, MixpanelStateView, NOT_PROPERTIES};
use crate::props::{natural, text};
use vstd::prelude::*;

verus! {

/// What `track` says where no distinct id is set.
pub const NO_DISTINCT_ID: &'static str = "Distinct ID not set. Call identify or alias first.";

/// The JSON number that holds a count of thousandths.
pub open spec fn thousandths(n: u64) -> ValueView {
    ValueView::Number(NumberView::Thousandths(n as int))
}

impl MixpanelStateView {
    /// The properties of an event before the client adds its own: the
    /// stored properties that are visible, beneath those held in memory,
    /// beneath those of the call; then, as `$duration`, the time since the
    /// event's timer was started, in thousandths of a second, where there
    /// is a timer that does not lie ahead of `now_ms`; then the distinct id
    /// and the time in seconds.
    pub open spec fn composed(
        self,
        event_name: Seq<char>,
        input: Map<Seq<char>, ValueView>,
        now_ms: u64,
    ) -> Map<Seq<char>, ValueView> {
        let merged = self.store.visible_properties(now_ms).union_prefer_right(
            self.overlay,
        ).union_prefer_right(input);
        let timed = if self.store.event_timers.contains_key(event_name) && now_ms
            >= self.store.event_timers[event_name] {
            merged.insert(
                "$duration"@,
                thousandths((now_ms - self.store.event_timers[event_name]) as u64),
            )
        } else {
            merged
        };
        timed.insert("distinct_id"@, text(self.store.distinct_id->Some_0)).insert(
            "time"@,
            natural(now_ms / 1000),
        )
    }
}

/// Whether an event is the one that the client sends for a name and
/// properties.
pub open spec fn is_event(
    e: EventView,
    name: Seq<char>,
    props: Map<Seq<char>, ValueView>,
    token: Seq<char>,
) -> bool {
    e.event == name && e.properties == stamped(props, token)
}

/// The names of the fields that the state and the client set differ from
/// `time`.
pub proof fn lemma_time_key()
    ensures
        "time"@ != "token"@,
        "time"@ != "mp_lib"@,
        "time"@ != "$lib_version"@,
        "time"@ != "distinct_id"@,
        "time"@ != "$anon_distinct_id"@,
        "time"@ != "alias"@,
{
    reveal_strlit("time");
    reveal_strlit("token");
    reveal_strlit("mp_lib");
    reveal_strlit("$lib_version");
    reveal_strlit("distinct_id");
    reveal_strlit("$anon_distinct_id");
    reveal_strlit("alias");
    assert("time"@.len() == 4);
    assert("token"@.len() == 5);
    assert("mp_lib"@.len() == 6);
    assert("$lib_version"@.len() == 12);
    assert("distinct_id"@.len() == 11);
    assert("$anon_distinct_id"@.len() == 17);
    assert("alias"@.len() == 5);
}

impl MixpanelState {
    /// Starts the timer of an event at `now_ms`, replacing an open one. When
    /// the event is tracked, the time since then goes with it as
    /// `$duration`.
    pub fn time_event(&mut self, event_name: &str, now_ms: u64)
        ensures
            final(self)@ == old(self)@.with_store(
                old(self)@.store.with_timer(event_name@, now_ms),
            ),
    {
        self.persistence.set_event_timer(event_name.to_owned(), now_ms);
    }

    /// The event for `event_name` at `now_ms`, composed from the stored
    /// properties, those held in memory and those of the call; the event's
    /// timer, where one is open, is closed. Fails, and changes nothing,
    /// where no distinct id is set or the properties are neither an object
    /// nor null.
    pub fn track(&mut self, event_name: String, properties: Option<Value>, now_ms: u64) -> (r:
        Result<Event, Error>)
        ensures
            old(self)@.store.distinct_id is None ==> r is Err && r->Err_0.is_usage(
                NO_DISTINCT_ID@,
            ) && final(self)@ == old(self)@,
            old(self)@.store.distinct_id is Some ==> match parsed_props(
                match properties {
                    Some(v) => v@,
                    None => ValueView::Null,
                },
            ) {
                Some(input) => r is Ok && is_event(
                    r->Ok_0@,
                    event_name@,
                    old(self)@.composed(event_name@, input, now_ms),
                    old(self)@.token(),
                ) && final(self)@ == old(self)@.with_store(
                    old(self)@.store.without_timer(event_name@),
                ),
                None => r is Err && r->Err_0.is_usage(NOT_PROPERTIES@)
                    && final(self)@ == old(self)@,
            },
    {
        let distinct_id = match self.get_distinct_id() {
            Some(id) => id,
            None => {
                return Err(Error::MixpanelError(NO_DISTINCT_ID.to_owned()));
            },
        };
        let input_props = match Self::parse_props(
            match properties {
                Some(v) => v,
                None => Value::Null,
            },
        ) {
            Ok(p) => p,
            Err(e) => {
                return Err(e);
            },
        };
        let mut final_props = self.persistence.get_properties(now_ms);
        final_props.extend(self.super_properties.duplicate());
        final_props.extend(input_props);
        if let Some(start_time_ms) = self.persistence.remove_event_timer(event_name.as_str()) {
            if now_ms >= start_time_ms {
                final_props.insert(
                    "$duration".to_owned(),
                    Value::Number(Number::Thousandths(now_ms - start_time_ms)),
                );
            }
        }
        final_props.insert("distinct_id".to_owned(), Value::String(distinct_id));
        final_props.insert("time".to_owned(), Value::Number(Number::PosInt(now_ms / 1000)));
        proof {
            lemma_time_key();
        }
        Ok(self.client.track(event_name.as_str(), Some(final_props)))
    }
}

} // verus!
