use crate::json::{Number, NumberView, Value, ValueView};
use crate::props::PropertyMap;
use vstd::prelude::*;

verus! {

/// The JSON value that holds a time stamp.
pub open spec fn stamp_value(t: u64) -> ValueView {
    ValueView::Number(NumberView::PosInt(t as int))
}

/// Whether a JSON value holds a time stamp.
pub open spec fn is_stamp(v: ValueView) -> bool {
    exists|t: u64| v == stamp_value(t)
}

/// The time stamps as JSON values.
pub open spec fn stamp_map(timers: Map<Seq<char>, u64>) -> Map<Seq<char>, ValueView> {
    Map::new(|k: Seq<char>| timers.contains_key(k), |k: Seq<char>| stamp_value(timers[k]))
}

/// Whether every value holds a time stamp.
pub open spec fn all_stamps(values: Map<Seq<char>, ValueView>) -> bool {
    forall|k: Seq<char>| #[trigger] values.contains_key(k) ==> is_stamp(values[k])
}

/// The time stamps that the values hold.
pub open spec fn unstamped(values: Map<Seq<char>, ValueView>) -> Map<Seq<char>, u64> {
    Map::new(
        |k: Seq<char>| values.contains_key(k),
        |k: Seq<char>| choose|t: u64| values[k] == stamp_value(t),
    )
}

/// Time stamps come back from the values that hold them.
pub proof fn lemma_stamps_round_trip(timers: Map<Seq<char>, u64>)
    ensures
        all_stamps(stamp_map(timers)),
        unstamped(stamp_map(timers)) == timers,
{
    assert forall|k: Seq<char>| #[trigger] timers.contains_key(k) implies unstamped(
        stamp_map(timers),
    )[k] == timers[k] by {
        let t = choose|t: u64| stamp_map(timers)[k] == stamp_value(t);
        assert(stamp_value(t) == stamp_value(timers[k]));
    }
    assert(unstamped(stamp_map(timers)) =~= timers);
}

/// The start times of the open timers: a map from event names to
/// milliseconds since the epoch, with at most one timer for a name.
#[derive(Debug)]
pub struct TimerMap {
    stamps: PropertyMap,
}

impl View for TimerMap {
    type V = Map<Seq<char>, u64>;

    closed spec fn view(&self) -> Map<Seq<char>, u64> {
        unstamped(self.stamps@)
    }
}

impl TimerMap {
    #[verifier::type_invariant]
    spec fn holds_stamps(self) -> bool {
        forall|k: Seq<char>| #[trigger] self.stamps@.contains_key(k) ==> is_stamp(self.stamps@[k])
    }

    pub fn new() -> (r: Self)
        ensures
            r@ == Map::<Seq<char>, u64>::empty(),
    {
        let r = TimerMap { stamps: PropertyMap::new() };
        assert(r@ =~= Map::<Seq<char>, u64>::empty());
        r
    }

    pub fn len(&self) -> (n: usize)
        ensures
            n == self@.len(),
            self@.dom().finite(),
    {
        let n = self.stamps.len();
        proof {
            self.stamps.lemma_len();
            assert(self@.dom() =~= self.stamps@.dom());
        }
        n
    }

    /// The timers as a list: each event name once, with its start time.
    pub fn entries(&self) -> (r: Vec<(String, u64)>)
        ensures
            r.len() == self@.len(),
            forall|i: int|
                0 <= i < r.len() ==> self@.contains_key(#[trigger] r[i].0@) && self@[r[i].0@]
                    == r[i].1,
            forall|i: int, j: int| 0 <= i < j < r.len() ==> r[i].0@ != r[j].0@,
            forall|k: Seq<char>| #[trigger]
                self@.contains_key(k) ==> exists|i: int| 0 <= i < r.len() && r[i].0@ == k,
    {
        proof {
            use_type_invariant(self);
            self.stamps.lemma_len();
            self.stamps.lemma_members();
            assert(self@.dom() =~= self.stamps@.dom());
        }
        let ghost members = self.stamps.members();
        let n = self.stamps.len();
        let mut out: Vec<(String, u64)> = Vec::new();
        let mut i: usize = 0;
        while i < n
            invariant
                i <= n,
                n == members.len(),
                members == self.stamps.members(),
                out.len() == i,
                forall|j: int|
                    0 <= j < i ==> (#[trigger] out[j]).0@ == members[j].key && stamp_value(out[j].1)
                        == members[j].value,
            decreases n - i,
        {
            proof {
                self.stamps.lemma_members();
                use_type_invariant(self);
                assert(self.stamps@.contains_key(members[i as int].key));
                let t = choose|t: u64| self.stamps@[members[i as int].key] == stamp_value(t);
                assert(members[i as int].value == stamp_value(t));
            }
            let name = self.stamps.key_at(i).clone();
            let start = self.stamps.value_at(i).as_u64().unwrap();
            out.push((name, start));
            i += 1;
        }
        proof {
            self.stamps.lemma_members();
            assert forall|j: int| 0 <= j < out.len() implies self@.contains_key(
                #[trigger] out[j].0@,
            ) && self@[out[j].0@] == out[j].1 by {
                assert(self.stamps@.contains_key(members[j].key));
                let t = choose|t: u64| self.stamps@[out[j].0@] == stamp_value(t);
                assert(stamp_value(t) == stamp_value(out[j].1));
            }
            assert forall|k: Seq<char>| #[trigger] self@.contains_key(k) implies exists|j: int|
                0 <= j < out.len() && out[j].0@ == k by {
                let j = choose|j: int| 0 <= j < members.len() && members[j].key == k;
                assert(out[j].0@ == k);
            }
        }
        out
    }

    pub fn get(&self, event: &str) -> (r: Option<u64>)
        ensures
            r == if self@.contains_key(event@) {
                Some(self@[event@])
            } else {
                None
            },
    {
        proof {
            use_type_invariant(self);
        }
        match self.stamps.get(event) {
            Some(v) => {
                let r = v.as_u64();
                proof {
                    let t = choose|t: u64| self.stamps@[event@] == stamp_value(t);
                    assert(v@ == stamp_value(t));
                }
                r
            },
            None => None,
        }
    }

    /// Starts the timer of `event` at `timestamp`, replacing an open one.
    pub fn insert(&mut self, event: String, timestamp: u64)
        ensures
            final(self)@ == old(self)@.insert(event@, timestamp),
    {
        proof {
            use_type_invariant(&*self);
        }
        let mut stamps = PropertyMap::new();
        std::mem::swap(&mut stamps, &mut self.stamps);
        stamps.insert(event, Value::Number(Number::PosInt(timestamp)));
        proof {
            assert(stamps@[event@] == stamp_value(timestamp));
            assert forall|k: Seq<char>| #[trigger] stamps@.contains_key(k) implies is_stamp(
                stamps@[k],
            ) by {
                if k != event@ {
                    assert(old(self).stamps@.contains_key(k));
                }
            }
        }
        self.stamps = stamps;
        proof {
            assert forall|k: Seq<char>| self@.contains_key(k) implies self@[k] == old(self)@.insert(
                event@,
                timestamp,
            )[k] by {
                if k == event@ {
                    let t = choose|t: u64| self.stamps@[k] == stamp_value(t);
                    assert(stamp_value(t) == stamp_value(timestamp));
                }
            }
            assert(self@ =~= old(self)@.insert(event@, timestamp));
        }
    }

    /// Closes the timer of `event`, and returns its start time.
    pub fn remove(&mut self, event: &str) -> (r: Option<u64>)
        ensures
            final(self)@ == old(self)@.remove(event@),
            r == if old(self)@.contains_key(event@) {
                Some(old(self)@[event@])
            } else {
                None
            },
    {
        proof {
            use_type_invariant(&*self);
        }
        let mut stamps = PropertyMap::new();
        std::mem::swap(&mut stamps, &mut self.stamps);
        let removed = stamps.remove(event);
        self.stamps = stamps;
        proof {
            assert(self@ =~= old(self)@.remove(event@));
        }
        match removed {
            Some(v) => {
                proof {
                    let t = choose|t: u64| old(self).stamps@[event@] == stamp_value(t);
                    assert(v@ == stamp_value(t));
                }
                v.as_u64()
            },
            None => None,
        }
    }

    /// The timers for a map of values, where each holds a time stamp.
    pub fn from_properties(stamps: PropertyMap) -> (r: Option<Self>)
        ensures
            match r {
                Some(timers) => all_stamps(stamps@) && timers@ == unstamped(stamps@),
                None => !all_stamps(stamps@),
            },
    {
        proof {
            stamps.lemma_members();
        }
        let n = stamps.len();
        let mut i: usize = 0;
        while i < n
            invariant
                i <= n,
                n == stamps.members().len(),
                forall|j: int| 0 <= j < i ==> is_stamp(stamps.members()[j].value),
            decreases n - i,
        {
            match stamps.value_at(i).as_u64() {
                Some(t) => {
                    assert(stamps.members()[i as int].value == stamp_value(t));
                },
                None => {
                    proof {
                        stamps.lemma_members();
                        let k = stamps.members()[i as int].key;
                        assert(stamps@.contains_key(k));
                        assert(!is_stamp(stamps@[k]));
                    }
                    return None;
                },
            }
            i += 1;
        }
        proof {
            stamps.lemma_members();
            assert forall|k: Seq<char>| #[trigger] stamps@.contains_key(k) implies is_stamp(
                stamps@[k],
            ) by {
                let j = choose|j: int|
                    0 <= j < stamps.members().len() && stamps.members()[j].key == k;
                assert(stamps@[stamps.members()[j].key] == stamps.members()[j].value);
            }
        }
        Some(TimerMap { stamps })
    }

    /// The timers as a map of values.
    pub fn to_properties(&self) -> (r: PropertyMap)
        ensures
            r@ == stamp_map(self@),
    {
        proof {
            use_type_invariant(self);
            assert(self.stamps@ =~= stamp_map(self@));
        }
        self.stamps.duplicate()
    }

    /// Whether both hold the same timers.
    pub fn same_as(&self, other: &TimerMap) -> (r: bool)
        ensures
            r == (self@ == other@),
    {
        proof {
            use_type_invariant(self);
            use_type_invariant(other);
            assert(self.stamps@ =~= stamp_map(self@));
            assert(other.stamps@ =~= stamp_map(other@));
        }
        self.stamps.same_as(&other.stamps)
    }

    /// A copy with the same timers.
    pub fn duplicate(&self) -> (r: Self)
        ensures
            r@ == self@,
    {
        proof {
            use_type_invariant(self);
        }
        let r = TimerMap { stamps: self.stamps.duplicate() };
        assert(r@ =~= self@);
        r
    }
}

impl Clone for TimerMap {
    fn clone(&self) -> (r: Self)
        ensures
            r@ == self@,
    {
        self.duplicate()
    }
}

} // verus!
