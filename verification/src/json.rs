use vstd::prelude::*;

verus! {

/// A JSON number.
#[derive(Clone, Copy, Debug, PartialEq, Eq, Structural)]
pub enum Number {
    /// A non-negative integer.
    PosInt(u64),
    /// A negative integer.
    NegInt(i64),
    /// A binary64 value, held by its bit pattern.
    Float(u64),
    /// A non-negative decimal with three fractional digits, held as its count of thousandths.
    Thousandths(u64),
}

/// The mathematical content of a [`Number`].
pub enum NumberView {
    PosInt(int),
    NegInt(int),
    Float(int),
    Thousandths(int),
}

impl View for Number {
    type V = NumberView;

    open spec fn view(&self) -> NumberView {
        match self {
            Number::PosInt(n) => NumberView::PosInt(*n as int),
            Number::NegInt(n) => NumberView::NegInt(*n as int),
            Number::Float(bits) => NumberView::Float(*bits as int),
            Number::Thousandths(n) => NumberView::Thousandths(*n as int),
        }
    }
}

/// A JSON value. An object is the sequence of its members, in order, and two
/// values are equal when they hold the same content in the same order.
#[derive(Debug)]
pub enum Value {
    Null,
    Bool(bool),
    Number(Number),
    String(String),
    Array(Vec<Value>),
    Object(Vec<(String, Value)>),
}

/// The mathematical content of one member of an object.
pub struct MemberView {
    pub key: Seq<char>,
    pub value: ValueView,
}

/// The mathematical content of a [`Value`].
pub enum ValueView {
    Null,
    Bool(bool),
    Number(NumberView),
    String(Seq<char>),
    Array(Seq<ValueView>),
    Object(Seq<MemberView>),
}

impl View for Value {
    type V = ValueView;

    // The tests on `i` only serve to show that the definition ends: see
    // `lemma_array_view` and `lemma_object_view` for what the view is.
    open spec fn view(&self) -> ValueView
        decreases self,
    {
        match self {
            Value::Null => ValueView::Null,
            Value::Bool(b) => ValueView::Bool(*b),
            Value::Number(n) => ValueView::Number(n@),
            Value::String(s) => ValueView::String(s@),
            Value::Array(items) => ValueView::Array(
                Seq::new(
                    items.len() as nat,
                    |i: int|
                        if 0 <= i < items.len() {
                            items[i]@
                        } else {
                            ValueView::Null
                        },
                ),
            ),
            Value::Object(members) => ValueView::Object(
                Seq::new(
                    members.len() as nat,
                    |i: int|
                        if 0 <= i < members.len() {
                            MemberView { key: members[i].0@, value: members[i].1@ }
                        } else {
                            MemberView { key: Seq::empty(), value: ValueView::Null }
                        },
                ),
            ),
        }
    }
}

impl NumberView {
    /// The value as a `u64`, where it is a non-negative integer.
    pub open spec fn as_u64(self) -> Option<u64> {
        match self {
            NumberView::PosInt(n) => Some(n as u64),
            _ => None,
        }
    }

    /// The value as an `i64`, where it is an integer in that range.
    pub open spec fn as_i64(self) -> Option<i64> {
        match self {
            NumberView::PosInt(n) => if n <= i64::MAX {
                Some(n as i64)
            } else {
                None
            },
            NumberView::NegInt(n) => Some(n as i64),
            _ => None,
        }
    }
}

impl Number {
    pub fn as_u64(self) -> (r: Option<u64>)
        ensures
            r == self@.as_u64(),
    {
        match self {
            Number::PosInt(n) => Some(n),
            _ => None,
        }
    }

    pub fn as_i64(self) -> (r: Option<i64>)
        ensures
            r == self@.as_i64(),
    {
        match self {
            Number::PosInt(n) => if n <= i64::MAX as u64 {
                Some(n as i64)
            } else {
                None
            },
            Number::NegInt(n) => Some(n),
            _ => None,
        }
    }
}

impl ValueView {
    pub open spec fn is_number(self) -> bool {
        self is Number
    }

    pub open spec fn as_bool(self) -> Option<bool> {
        match self {
            ValueView::Bool(b) => Some(b),
            _ => None,
        }
    }

    pub open spec fn as_u64(self) -> Option<u64> {
        match self {
            ValueView::Number(n) => n.as_u64(),
            _ => None,
        }
    }

    pub open spec fn as_i64(self) -> Option<i64> {
        match self {
            ValueView::Number(n) => n.as_i64(),
            _ => None,
        }
    }

    pub open spec fn as_str(self) -> Option<Seq<char>> {
        match self {
            ValueView::String(s) => Some(s),
            _ => None,
        }
    }

    pub open spec fn as_array(self) -> Option<Seq<ValueView>> {
        match self {
            ValueView::Array(items) => Some(items),
            _ => None,
        }
    }
}

/// The contents of a vector of values.
pub open spec fn items_view(items: Seq<Value>) -> Seq<ValueView> {
    Seq::new(items.len(), |i: int| items[i]@)
}

/// The contents of a vector of object members.
pub open spec fn members_view(members: Seq<(String, Value)>) -> Seq<MemberView> {
    Seq::new(members.len(), |i: int| MemberView { key: members[i].0@, value: members[i].1@ })
}

/// The view of an array is the view of each item, in order.
pub proof fn lemma_array_view(items: Vec<Value>)
    ensures
        Value::Array(items)@ == ValueView::Array(items_view(items@)),
{
    assert(Value::Array(items)@->Array_0 =~= items_view(items@));
}

/// The view of an object is the view of each member, in order.
pub proof fn lemma_object_view(members: Vec<(String, Value)>)
    ensures
        Value::Object(members)@ == ValueView::Object(members_view(members@)),
{
    assert(Value::Object(members)@->Object_0 =~= members_view(members@));
}

/// Whether two vectors of values have the same content.
pub fn items_equal(a: &Vec<Value>, b: &Vec<Value>) -> (r: bool)
    ensures
        r == (items_view(a@) == items_view(b@)),
    decreases a, 1nat,
{
    if a.len() != b.len() {
        assert(items_view(a@).len() != items_view(b@).len());
        return false;
    }
    let mut i: usize = 0;
    while i < a.len()
        invariant
            i <= a.len(),
            a.len() == b.len(),
            forall|j: int| 0 <= j < i ==> a[j]@ == b[j]@,
        decreases a.len() - i,
    {
        proof {
            vstd::std_specs::vec::axiom_vec_index_decreases(*a, i as int);
        }
        if !a[i].equals(&b[i]) {
            assert(items_view(a@)[i as int] != items_view(b@)[i as int]);
            return false;
        }
        i += 1;
    }
    assert(items_view(a@) =~= items_view(b@));
    true
}

/// Whether two vectors of members have the same content.
pub fn members_equal(a: &Vec<(String, Value)>, b: &Vec<(String, Value)>) -> (r: bool)
    ensures
        r == (members_view(a@) == members_view(b@)),
    decreases a, 1nat,
{
    if a.len() != b.len() {
        assert(members_view(a@).len() != members_view(b@).len());
        return false;
    }
    let mut i: usize = 0;
    while i < a.len()
        invariant
            i <= a.len(),
            a.len() == b.len(),
            forall|j: int| 0 <= j < i ==> a[j].0@ == b[j].0@ && a[j].1@ == b[j].1@,
        decreases a.len() - i,
    {
        proof {
            vstd::std_specs::vec::axiom_vec_index_decreases(*a, i as int);
        }
        if a[i].0 != b[i].0 || !a[i].1.equals(&b[i].1) {
            assert(members_view(a@)[i as int] != members_view(b@)[i as int]);
            return false;
        }
        i += 1;
    }
    assert(members_view(a@) =~= members_view(b@));
    true
}

/// A copy of a vector of values with the same content.
pub fn items_duplicate(items: &Vec<Value>) -> (out: Vec<Value>)
    ensures
        items_view(out@) == items_view(items@),
    decreases items, 1nat,
{
    let mut out: Vec<Value> = Vec::new();
    let mut i: usize = 0;
    while i < items.len()
        invariant
            i <= items.len(),
            out.len() == i,
            forall|j: int| 0 <= j < i ==> out[j]@ == items[j]@,
        decreases items.len() - i,
    {
        proof {
            vstd::std_specs::vec::axiom_vec_index_decreases(*items, i as int);
        }
        out.push(items[i].duplicate());
        i += 1;
    }
    assert(items_view(out@) =~= items_view(items@));
    out
}

/// A copy of a vector of members with the same content.
pub fn members_duplicate(members: &Vec<(String, Value)>) -> (out: Vec<(String, Value)>)
    ensures
        members_view(out@) == members_view(members@),
    decreases members, 1nat,
{
    let mut out: Vec<(String, Value)> = Vec::new();
    let mut i: usize = 0;
    while i < members.len()
        invariant
            i <= members.len(),
            out.len() == i,
            forall|j: int|
                0 <= j < i ==> out[j].0@ == members[j].0@ && out[j].1@ == members[j].1@,
        decreases members.len() - i,
    {
        proof {
            vstd::std_specs::vec::axiom_vec_index_decreases(*members, i as int);
        }
        out.push((members[i].0.clone(), members[i].1.duplicate()));
        i += 1;
    }
    assert(members_view(out@) =~= members_view(members@));
    out
}

/// The items without those equal to `v`, in order.
pub open spec fn without(items: Seq<ValueView>, v: ValueView) -> Seq<ValueView>
    decreases items.len(),
{
    if items.len() == 0 {
        Seq::empty()
    } else if items.last() == v {
        without(items.drop_last(), v)
    } else {
        without(items.drop_last(), v).push(items.last())
    }
}

/// Whether one of the items equals `v`.
pub fn contains_value(items: &Vec<Value>, v: &Value) -> (r: bool)
    ensures
        r == items_view(items@).contains(v@),
{
    let mut i: usize = 0;
    while i < items.len()
        invariant
            i <= items.len(),
            forall|j: int| 0 <= j < i ==> items_view(items@)[j] != v@,
        decreases items.len() - i,
    {
        if items[i].equals(v) {
            assert(items_view(items@)[i as int] == v@);
            return true;
        }
        i += 1;
    }
    false
}

/// The items without those equal to `v`, in order.
pub fn without_value(items: Vec<Value>, v: &Value) -> (r: Vec<Value>)
    ensures
        items_view(r@) == without(items_view(items@), v@),
{
    let ghost all = items_view(items@);
    let mut out: Vec<Value> = Vec::new();
    proof {
        assert(all.take(0) =~= Seq::<ValueView>::empty());
        assert(items_view(out@) =~= Seq::<ValueView>::empty());
    }
    for item in it: items
        invariant
            it.seq() == items@,
            all == items_view(items@),
            items_view(out@) == without(all.take(it.index() as int), v@),
    {
        let ghost i = it.index() as int;
        let ghost before = items_view(out@);
        proof {
            assert(all.take(i + 1).drop_last() =~= all.take(i));
            assert(all.take(i + 1).last() == item@);
        }
        if !item.equals(v) {
            out.push(item);
            proof {
                assert(items_view(out@) =~= before.push(item@));
            }
        }
    }
    proof {
        assert(all.take(all.len() as int) =~= all);
    }
    out
}

impl Value {
    pub fn is_null(&self) -> (r: bool)
        ensures
            r == (self@ is Null),
    {
        match self {
            Value::Null => true,
            _ => false,
        }
    }

    pub fn is_number(&self) -> (r: bool)
        ensures
            r == self@.is_number(),
    {
        match self {
            Value::Number(_) => true,
            _ => false,
        }
    }

    pub fn as_bool(&self) -> (r: Option<bool>)
        ensures
            r == self@.as_bool(),
    {
        match self {
            Value::Bool(b) => Some(*b),
            _ => None,
        }
    }

    pub fn as_u64(&self) -> (r: Option<u64>)
        ensures
            r == self@.as_u64(),
    {
        match self {
            Value::Number(n) => n.as_u64(),
            _ => None,
        }
    }

    pub fn as_i64(&self) -> (r: Option<i64>)
        ensures
            r == self@.as_i64(),
    {
        match self {
            Value::Number(n) => n.as_i64(),
            _ => None,
        }
    }

    pub fn as_str(&self) -> (r: Option<&str>)
        ensures
            match r {
                Some(s) => self@.as_str() == Some(s@),
                None => self@.as_str() is None,
            },
    {
        match self {
            Value::String(s) => Some(s.as_str()),
            _ => None,
        }
    }

    pub fn as_array(&self) -> (r: Option<&Vec<Value>>)
        ensures
            match r {
                Some(items) => self@.as_array() == Some(items_view(items@)),
                None => self@.as_array() is None,
            },
    {
        match self {
            Value::Array(items) => {
                proof {
                    lemma_array_view(*items);
                }
                Some(items)
            },
            _ => None,
        }
    }

    /// Whether two values have the same content.
    pub fn equals(&self, other: &Value) -> (r: bool)
        ensures
            r == (self@ == other@),
        decreases self, 0nat,
    {
        match self {
            Value::Null => other.is_null(),
            Value::Bool(a) => match other {
                Value::Bool(b) => *a == *b,
                _ => false,
            },
            Value::Number(a) => match other {
                Value::Number(b) => *a == *b,
                _ => false,
            },
            Value::String(a) => match other {
                Value::String(b) => *a == *b,
                _ => false,
            },
            Value::Array(a) => match other {
                Value::Array(b) => {
                    proof {
                        lemma_array_view(*a);
                        lemma_array_view(*b);
                    }
                    items_equal(a, b)
                },
                _ => false,
            },
            Value::Object(a) => match other {
                Value::Object(b) => {
                    proof {
                        lemma_object_view(*a);
                        lemma_object_view(*b);
                    }
                    members_equal(a, b)
                },
                _ => false,
            },
        }
    }

    /// A copy with the same content.
    pub fn duplicate(&self) -> (r: Value)
        ensures
            r@ == self@,
        decreases self, 0nat,
    {
        match self {
            Value::Null => Value::Null,
            Value::Bool(b) => Value::Bool(*b),
            Value::Number(n) => Value::Number(*n),
            Value::String(s) => Value::String(s.clone()),
            Value::Array(items) => {
                let out = items_duplicate(items);
                proof {
                    lemma_array_view(*items);
                    lemma_array_view(out);
                }
                Value::Array(out)
            },
            Value::Object(members) => {
                let out = members_duplicate(members);
                proof {
                    lemma_object_view(*members);
                    lemma_object_view(out);
                }
                Value::Object(out)
            },
        }
    }
}

impl Clone for Value {
    fn clone(&self) -> (r: Self)
        ensures
            r@ == self@,
    {
        self.duplicate()
    }
}

impl PartialEq for Value {
    fn eq(&self, other: &Self) -> (r: bool) {
        self.equals(other)
    }
}

impl vstd::std_specs::cmp::PartialEqSpecImpl for Value {
    open spec fn obeys_eq_spec() -> bool {
        true
    }

    open spec fn eq_spec(&self, other: &Self) -> bool {
        self@ == other@
    }
}

} // verus!
