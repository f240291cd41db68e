use crate::json::{
    lemma_object_view, members_duplicate, members_view, MemberView, NumberView, Value, ValueView,
};
use crate::text::str_eq;
use vstd::prelude::*;

verus! {

/// No key occurs twice among the members.
pub open spec fn distinct_keys(m: Seq<MemberView>) -> bool {
    forall|i: int, j: int| 0 <= i < j < m.len() ==> m[i].key != m[j].key
}

/// The map that a sequence of members stands for: a later member replaces an
/// earlier one with the same key.
pub open spec fn members_to_map(m: Seq<MemberView>) -> Map<Seq<char>, ValueView>
    decreases m.len(),
{
    if m.len() == 0 {
        Map::empty()
    } else {
        members_to_map(m.drop_last()).insert(m.last().key, m.last().value)
    }
}

/// The map that an object stands for; the empty map for any other value.
pub open spec fn object_map(v: ValueView) -> Map<Seq<char>, ValueView> {
    match v {
        ValueView::Object(members) => members_to_map(members),
        _ => Map::empty(),
    }
}

/// The JSON string with the given characters.
pub open spec fn text(s: Seq<char>) -> ValueView {
    ValueView::String(s)
}

/// The JSON number that holds a non-negative integer.
pub open spec fn natural(n: u64) -> ValueView {
    ValueView::Number(NumberView::PosInt(n as int))
}

/// A key is in the map exactly when some member carries it.
pub proof fn lemma_map_keys(m: Seq<MemberView>, k: Seq<char>)
    ensures
        members_to_map(m).contains_key(k) <==> exists|i: int| 0 <= i < m.len() && m[i].key == k,
    decreases m.len(),
{
    if m.len() > 0 {
        lemma_map_keys(m.drop_last(), k);
        if members_to_map(m).contains_key(k) {
            if m.last().key == k {
                assert(m[m.len() - 1].key == k);
            } else {
                let i = choose|i: int| 0 <= i < m.drop_last().len() && m.drop_last()[i].key == k;
                assert(m[i].key == k);
            }
        }
        if exists|i: int| 0 <= i < m.len() && m[i].key == k {
            let i = choose|i: int| 0 <= i < m.len() && m[i].key == k;
            if i < m.len() - 1 {
                assert(m.drop_last()[i].key == k);
            }
        }
    }
}

/// Where no key occurs twice, the map gives each member's key its value.
pub proof fn lemma_map_value(m: Seq<MemberView>, i: int)
    requires
        distinct_keys(m),
        0 <= i < m.len(),
    ensures
        members_to_map(m).contains_key(m[i].key),
        members_to_map(m)[m[i].key] == m[i].value,
    decreases m.len(),
{
    if i < m.len() - 1 {
        assert(m.drop_last()[i] == m[i]);
        lemma_map_value(m.drop_last(), i);
    }
}

/// Appending a member inserts it into the map.
pub proof fn lemma_map_push(m: Seq<MemberView>, x: MemberView)
    ensures
        members_to_map(m.push(x)) == members_to_map(m).insert(x.key, x.value),
{
    assert(m.push(x).drop_last() =~= m);
}

/// Replacing the value of a member replaces it in the map.
pub proof fn lemma_map_update(m: Seq<MemberView>, i: int, v: ValueView)
    requires
        distinct_keys(m),
        0 <= i < m.len(),
    ensures
        distinct_keys(m.update(i, MemberView { key: m[i].key, value: v })),
        members_to_map(m.update(i, MemberView { key: m[i].key, value: v })) == members_to_map(
            m,
        ).insert(m[i].key, v),
{
    let m2 = m.update(i, MemberView { key: m[i].key, value: v });
    assert(distinct_keys(m2));
    let a = members_to_map(m2);
    let b = members_to_map(m).insert(m[i].key, v);
    assert forall|k: Seq<char>| a.contains_key(k) <==> b.contains_key(k) by {
        lemma_map_keys(m2, k);
        lemma_map_keys(m, k);
        if a.contains_key(k) {
            let j = choose|j: int| 0 <= j < m2.len() && m2[j].key == k;
            assert(m[j].key == k);
        }
        if b.contains_key(k) {
            if k == m[i].key {
                assert(m2[i].key == k);
            } else {
                let j = choose|j: int| 0 <= j < m.len() && m[j].key == k;
                assert(m2[j].key == k);
            }
        }
    }
    assert forall|k: Seq<char>| a.contains_key(k) implies a[k] == b[k] by {
        lemma_map_keys(m2, k);
        let j = choose|j: int| 0 <= j < m2.len() && m2[j].key == k;
        lemma_map_value(m2, j);
        if j != i {
            lemma_map_value(m, j);
        }
    }
    assert(a =~= b);
}

/// Taking a member out removes its key from the map.
pub proof fn lemma_map_remove(m: Seq<MemberView>, i: int)
    requires
        distinct_keys(m),
        0 <= i < m.len(),
    ensures
        distinct_keys(m.remove(i)),
        members_to_map(m.remove(i)) == members_to_map(m).remove(m[i].key),
{
    let m2 = m.remove(i);
    assert(distinct_keys(m2));
    let a = members_to_map(m2);
    let b = members_to_map(m).remove(m[i].key);
    assert forall|k: Seq<char>| a.contains_key(k) <==> b.contains_key(k) by {
        lemma_map_keys(m2, k);
        lemma_map_keys(m, k);
        if a.contains_key(k) {
            let j = choose|j: int| 0 <= j < m2.len() && m2[j].key == k;
            if j < i {
                assert(m[j].key == k);
            } else {
                assert(m[j + 1].key == k);
            }
        }
        if b.contains_key(k) {
            let j = choose|j: int| 0 <= j < m.len() && m[j].key == k;
            if j < i {
                assert(m2[j].key == k);
            } else {
                assert(m2[j - 1].key == k);
            }
        }
    }
    assert forall|k: Seq<char>| a.contains_key(k) implies a[k] == b[k] by {
        lemma_map_keys(m2, k);
        let j = choose|j: int| 0 <= j < m2.len() && m2[j].key == k;
        lemma_map_value(m2, j);
        if j < i {
            lemma_map_value(m, j);
        } else {
            lemma_map_value(m, j + 1);
        }
    }
    assert(a =~= b);
}

/// Where no key occurs twice, the map has one key for each member.
pub proof fn lemma_map_len(m: Seq<MemberView>)
    requires
        distinct_keys(m),
    ensures
        members_to_map(m).dom().finite(),
        members_to_map(m).len() == m.len(),
    decreases m.len(),
{
    if m.len() > 0 {
        lemma_map_len(m.drop_last());
        lemma_map_keys(m.drop_last(), m.last().key);
        if members_to_map(m.drop_last()).contains_key(m.last().key) {
            let i = choose|i: int|
                0 <= i < m.drop_last().len() && m.drop_last()[i].key == m.last().key;
            assert(m[i].key == m[m.len() - 1].key);
        }
    }
}

/// A map from property names to JSON values, kept in insertion order.
#[derive(Debug)]
pub struct PropertyMap {
    entries: Vec<(String, Value)>,
}

impl View for PropertyMap {
    type V = Map<Seq<char>, ValueView>;

    open spec fn view(&self) -> Map<Seq<char>, ValueView> {
        members_to_map(self.members())
    }
}

impl PropertyMap {
    #[verifier::type_invariant]
    spec fn keys_are_distinct(self) -> bool {
        distinct_keys(members_view(self.entries@))
    }

    /// The members in the order in which their keys were first inserted.
    /// No key occurs twice among them: see `lemma_members`.
    pub closed spec fn members(&self) -> Seq<MemberView> {
        if distinct_keys(members_view(self.entries@)) {
            members_view(self.entries@)
        } else {
            Seq::empty()
        }
    }

    /// No key occurs twice among the members, and the map gives each
    /// member's key its value.
    pub proof fn lemma_members(&self)
        ensures
            distinct_keys(self.members()),
            forall|i: int|
                0 <= i < self.members().len() ==> self@.contains_key(
                    #[trigger] self.members()[i].key,
                ) && self@[self.members()[i].key] == self.members()[i].value,
            forall|k: Seq<char>| #[trigger]
                self@.contains_key(k) ==> exists|i: int|
                    0 <= i < self.members().len() && self.members()[i].key == k,
    {
        let m = self.members();
        assert forall|i: int| 0 <= i < m.len() implies self@.contains_key(#[trigger] m[i].key)
            && self@[m[i].key] == m[i].value by {
            lemma_map_value(m, i);
        }
        assert forall|k: Seq<char>| #[trigger] self@.contains_key(k) implies exists|i: int|
            0 <= i < m.len() && m[i].key == k by {
            lemma_map_keys(m, k);
        }
    }

    pub fn new() -> (r: Self)
        ensures
            r@ == Map::<Seq<char>, ValueView>::empty(),
            r.members() == Seq::<MemberView>::empty(),
    {
        let r = PropertyMap { entries: Vec::new() };
        assert(r.members() =~= Seq::<MemberView>::empty());
        r
    }

    pub fn len(&self) -> (n: usize)
        ensures
            n == self.members().len(),
            n == self@.len(),
    {
        proof {
            use_type_invariant(self);
            self.lemma_len();
        }
        self.entries.len()
    }

    pub fn is_empty(&self) -> (r: bool)
        ensures
            r == (self@ == Map::<Seq<char>, ValueView>::empty()),
    {
        proof {
            use_type_invariant(self);
            self.lemma_len();
            if self.members().len() == 0 {
                assert(self@ =~= Map::<Seq<char>, ValueView>::empty());
            } else {
                lemma_map_keys(self.members(), self.members()[0].key);
            }
        }
        self.entries.len() == 0
    }

    /// The map has as many keys as there are members.
    pub proof fn lemma_len(&self)
        ensures
            self@.dom().finite(),
            self@.len() == self.members().len(),
    {
        self.lemma_members();
        lemma_map_len(self.members());
    }

    /// The key of the member at position `i`.
    pub fn key_at(&self, i: usize) -> (k: &String)
        requires
            i < self.members().len(),
        ensures
            k@ == self.members()[i as int].key,
    {
        proof {
            use_type_invariant(self);
        }
        &self.entries[i].0
    }

    /// The value of the member at position `i`.
    pub fn value_at(&self, i: usize) -> (v: &Value)
        requires
            i < self.members().len(),
        ensures
            v@ == self.members()[i as int].value,
    {
        proof {
            use_type_invariant(self);
        }
        &self.entries[i].1
    }

    fn find(&self, key: &str) -> (r: Option<usize>)
        ensures
            match r {
                Some(i) => i < self.members().len() && self.members()[i as int].key == key@,
                None => forall|j: int|
                    0 <= j < self.members().len() ==> self.members()[j].key != key@,
            },
    {
        proof {
            use_type_invariant(self);
        }
        let mut i: usize = 0;
        while i < self.entries.len()
            invariant
                i <= self.entries.len(),
                self.members() == members_view(self.entries@),
                forall|j: int| 0 <= j < i ==> self.members()[j].key != key@,
            decreases self.entries.len() - i,
        {
            if str_eq(self.entries[i].0.as_str(), key) {
                return Some(i);
            }
            i += 1;
        }
        None
    }

    pub fn contains_key(&self, key: &str) -> (r: bool)
        ensures
            r == self@.contains_key(key@),
    {
        proof {
            lemma_map_keys(self.members(), key@);
        }
        self.find(key).is_some()
    }

    pub fn get(&self, key: &str) -> (r: Option<&Value>)
        ensures
            match r {
                Some(v) => self@.contains_key(key@) && v@ == self@[key@],
                None => !self@.contains_key(key@),
            },
    {
        proof {
            use_type_invariant(self);
            lemma_map_keys(self.members(), key@);
        }
        match self.find(key) {
            Some(i) => {
                proof {
                    lemma_map_value(self.members(), i as int);
                }
                Some(&self.entries[i].1)
            },
            None => None,
        }
    }

    /// Sets `key` to `value`, replacing any value it had.
    pub fn insert(&mut self, key: String, value: Value)
        ensures
            final(self)@ == old(self)@.insert(key@, value@),
    {
        proof {
            use_type_invariant(&*self);
        }
        let ghost before = self.members();
        let found = self.find(key.as_str());
        let mut entries: Vec<(String, Value)> = Vec::new();
        std::mem::swap(&mut entries, &mut self.entries);
        match found {
            Some(i) => {
                proof {
                    lemma_map_update(before, i as int, value@);
                }
                entries.set(i, (key, value));
                assert(members_view(entries@) =~= before.update(
                    i as int,
                    MemberView { key: before[i as int].key, value: value@ },
                ));
            },
            None => {
                proof {
                    lemma_map_push(before, MemberView { key: key@, value: value@ });
                }
                entries.push((key, value));
                assert(members_view(entries@) =~= before.push(
                    MemberView { key: key@, value: value@ },
                ));
            },
        }
        self.entries = entries;
    }

    /// Removes `key`, and returns the value it had.
    pub fn remove(&mut self, key: &str) -> (r: Option<Value>)
        ensures
            final(self)@ == old(self)@.remove(key@),
            match r {
                Some(v) => old(self)@.contains_key(key@) && v@ == old(self)@[key@],
                None => !old(self)@.contains_key(key@),
            },
    {
        proof {
            use_type_invariant(&*self);
            lemma_map_keys(self.members(), key@);
        }
        let ghost before = self.members();
        match self.find(key) {
            Some(i) => {
                proof {
                    lemma_map_value(before, i as int);
                    lemma_map_remove(before, i as int);
                }
                let mut entries: Vec<(String, Value)> = Vec::new();
                std::mem::swap(&mut entries, &mut self.entries);
                let removed = entries.remove(i);
                assert(members_view(entries@) =~= before.remove(i as int));
                self.entries = entries;
                Some(removed.1)
            },
            None => {
                assert(old(self)@.remove(key@) =~= old(self)@);
                None
            },
        }
    }

    /// Removes every member.
    pub fn clear(&mut self)
        ensures
            final(self)@ == Map::<Seq<char>, ValueView>::empty(),
    {
        self.entries = Vec::new();
        assert(self.members() =~= Seq::<MemberView>::empty());
    }

    /// Inserts each member of `other`, in order: where both maps hold a key,
    /// the value of `other` replaces the one held before.
    pub fn extend(&mut self, other: PropertyMap)
        ensures
            final(self)@ == old(self)@.union_prefer_right(other@),
    {
        proof {
            use_type_invariant(&other);
        }
        let ghost incoming = other.members();
        let entries = other.entries;
        assert(old(self)@.union_prefer_right(members_to_map(incoming.take(0))) =~= old(self)@);
        for entry in it: entries
            invariant
                it.seq() == entries@,
                incoming == members_view(entries@),
                self@ == old(self)@.union_prefer_right(
                    members_to_map(incoming.take(it.index() as int)),
                ),
        {
            proof {
                let i = it.index() as int;
                let x = MemberView { key: entry.0@, value: entry.1@ };
                assert(incoming.take(i + 1) =~= incoming.take(i).push(x));
                lemma_map_push(incoming.take(i), x);
                assert(old(self)@.union_prefer_right(
                    members_to_map(incoming.take(i)).insert(x.key, x.value),
                ) =~= old(self)@.union_prefer_right(members_to_map(incoming.take(i))).insert(
                    x.key,
                    x.value,
                ));
            }
            self.insert(entry.0, entry.1);
        }
        assert(incoming.take(incoming.len() as int) =~= incoming);
    }

    /// The map that a list of members stands for: a later member replaces an
    /// earlier one with the same key.
    pub fn from_members(members: Vec<(String, Value)>) -> (r: Self)
        ensures
            r@ == members_to_map(members_view(members@)),
    {
        let ghost incoming = members_view(members@);
        let mut r = PropertyMap::new();
        assert(incoming.take(0) =~= Seq::<MemberView>::empty());
        for entry in it: members
            invariant
                it.seq() == members@,
                incoming == members_view(members@),
                r@ == members_to_map(incoming.take(it.index() as int)),
        {
            proof {
                let i = it.index() as int;
                let x = MemberView { key: entry.0@, value: entry.1@ };
                assert(incoming.take(i + 1) =~= incoming.take(i).push(x));
                lemma_map_push(incoming.take(i), x);
            }
            r.insert(entry.0, entry.1);
        }
        assert(incoming.take(incoming.len() as int) =~= incoming);
        r
    }

    /// The members as a list, in order.
    pub fn into_members(self) -> (r: Vec<(String, Value)>)
        ensures
            members_view(r@) == self.members(),
    {
        proof {
            use_type_invariant(&self);
        }
        self.entries
    }

    /// The object with these members.
    pub fn into_value(self) -> (r: Value)
        ensures
            r@ == ValueView::Object(self.members()),
    {
        let members = self.into_members();
        proof {
            lemma_object_view(members);
        }
        Value::Object(members)
    }

    /// Whether both maps hold the same keys with the same values.
    pub fn same_as(&self, other: &PropertyMap) -> (r: bool)
        ensures
            r == (self@ == other@),
    {
        proof {
            self.lemma_len();
            other.lemma_len();
            self.lemma_members();
        }
        let n = self.len();
        if n != other.len() {
            return false;
        }
        let mut i: usize = 0;
        while i < n
            invariant
                i <= n,
                n == self.members().len(),
                forall|j: int|
                    0 <= j < i ==> other@.contains_key(#[trigger] self.members()[j].key)
                        && other@[self.members()[j].key] == self.members()[j].value,
            decreases n - i,
        {
            proof {
                self.lemma_members();
                assert(self@.contains_key(self.members()[i as int].key));
            }
            let same = match other.get(self.key_at(i).as_str()) {
                Some(v) => v.equals(self.value_at(i)),
                None => false,
            };
            if !same {
                return false;
            }
            i += 1;
        }
        proof {
            self.lemma_members();
            assert forall|k: Seq<char>| self@.contains_key(k) implies other@.contains_key(k)
                && other@[k] == self@[k] by {
                let j = choose|j: int| 0 <= j < self.members().len() && self.members()[j].key == k;
                assert(other@.contains_key(self.members()[j].key));
            }
            assert(self@.dom().subset_of(other@.dom()));
            vstd::set_lib::lemma_subset_equality(self@.dom(), other@.dom());
            assert(self@ =~= other@);
        }
        true
    }

    /// A copy with the same members.
    pub fn duplicate(&self) -> (r: Self)
        ensures
            r@ == self@,
            r.members() == self.members(),
    {
        proof {
            use_type_invariant(self);
        }
        PropertyMap { entries: members_duplicate(&self.entries) }
    }
}

impl Clone for PropertyMap {
    fn clone(&self) -> (r: Self)
        ensures
            r@ == self@,
            r.members() == self.members(),
    {
        self.duplicate()
    }
}

} // verus!
