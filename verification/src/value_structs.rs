//! The values the cache stores and their conversions from and to messages.
use vstd::prelude::*;
use crate::commands_proto::{atomic_fr_value, fr_value, AtomicFrValue, FrKey, FrValue, ListValue, SetValue};
use dashmap::{DashMap, DashSet};
use crate::dash_collections::{
    dash_set_contains, dash_set_contents, dash_set_elements, dash_set_insert, dash_set_new,
};

verus! {

/// What an atomic value is, with strings taken by their characters.
pub enum AtomicView {
    Int(i32),
    Str(Seq<char>),
    Bool(bool),
}

/// An atomic value as the cache stores it.
#[derive(Eq, Hash, PartialEq, Clone, Debug)]
pub enum StoredAtomicValue {
    IntValue(i32),
    StringValue(String),
    BoolValue(bool),
}

impl View for StoredAtomicValue {
    type V = AtomicView;

    open spec fn view(&self) -> AtomicView {
        match self {
            StoredAtomicValue::IntValue(i) => AtomicView::Int(*i),
            StoredAtomicValue::StringValue(s) => AtomicView::Str(s@),
            StoredAtomicValue::BoolValue(b) => AtomicView::Bool(*b),
        }
    }
}

/// The view of the atomic value a message carries, if it carries one.
pub open spec fn atomic_message_view(a: AtomicFrValue) -> Option<AtomicView> {
    match a.value {
        Some(v) => Some(v@),
        None => None,
    }
}

impl StoredAtomicValue {
    /// Reads the atomic value a message carries; the message must carry one.
    pub fn from_atomic_fr_value(atomic_fr_value: AtomicFrValue) -> (r: StoredAtomicValue)
        requires
            atomic_fr_value.value is Some,
        ensures
            atomic_message_view(atomic_fr_value) == Some(r@),
    {
        match atomic_fr_value.value {
            Some(atomic_fr_value::Value::IntValue(v)) => StoredAtomicValue::IntValue(v),
            Some(atomic_fr_value::Value::StringValue(v)) => StoredAtomicValue::StringValue(v),
            Some(atomic_fr_value::Value::BoolValue(v)) => StoredAtomicValue::BoolValue(v),
            // not reached: the message carries a value
            None => StoredAtomicValue::BoolValue(false),
        }
    }

    /// The message that carries this value.
    pub fn to_atomic_fr_value(&self) -> (r: AtomicFrValue)
        ensures
            atomic_message_view(r) == Some(self@),
    {
        match self {
            StoredAtomicValue::IntValue(v) => AtomicFrValue {
                value: Some(atomic_fr_value::Value::IntValue(*v)),
            },
            StoredAtomicValue::StringValue(v) => AtomicFrValue {
                value: Some(atomic_fr_value::Value::StringValue(v.clone())),
            },
            StoredAtomicValue::BoolValue(v) => AtomicFrValue {
                value: Some(atomic_fr_value::Value::BoolValue(*v)),
            },
        }
    }
}


/// A set value of the cache.
#[derive(Debug)]
pub struct WrappedDashSet {
    pub wrapped_set: DashSet<StoredAtomicValue>,
}

impl View for WrappedDashSet {
    type V = Set<AtomicView>;

    open spec fn view(&self) -> Set<AtomicView> {
        dash_set_contents(self.wrapped_set)
    }
}

impl Clone for WrappedDashSet {
    /// A new set with the same elements.
    fn clone(&self) -> (r: Self)
        ensures
            r@ == self@,
    {
        let elements = dash_set_elements(&self.wrapped_set);
        let mut wrapped_set = dash_set_new();
        let mut i: usize = 0;
        while i < elements.len()
            invariant
                i <= elements.len(),
                dash_set_contents(wrapped_set) == list_view(elements@.subrange(0, i as int)).to_set(),
            decreases elements.len() - i,
        {
            let e = copy_atomic(&elements[i]);
            dash_set_insert(&mut wrapped_set, e);
            proof {
                assert(list_view(elements@.subrange(0, i + 1)) =~= list_view(elements@.subrange(0, i as int)) + seq![elements@[i as int]@]);
                Seq::lemma_to_set_insert_commutes(list_view(elements@.subrange(0, i as int)), elements@[i as int]@);
            }
            i = i + 1;
        }
        proof {
            assert(elements@.subrange(0, elements.len() as int) =~= elements@);
        }
        WrappedDashSet { wrapped_set }
    }
}

impl PartialEq for WrappedDashSet {
    /// True when every element of this set is an element of the other one.
    fn eq(&self, other: &Self) -> (r: bool) {
        let items = dash_set_elements(&self.wrapped_set);
        let mut i: usize = 0;
        while i < items.len()
            invariant
                i <= items.len(),
                list_view(items@).to_set() == self@,
                forall|j: int| 0 <= j < i ==> other@.contains(#[trigger] list_view(items@)[j]),
            decreases items.len() - i,
        {
            if !dash_set_contains(&other.wrapped_set, &items[i]) {
                proof {
                    assert(list_view(items@)[i as int] == items@[i as int]@);
                    assert(list_view(items@).contains(items@[i as int]@));
                }
                return false;
            }
            i = i + 1;
        }
        proof {
            assert forall|x: AtomicView| self@.contains(x) implies other@.contains(x) by {
                let j = choose|j: int| 0 <= j < list_view(items@).len() && list_view(items@)[j] == x;
            }
        }
        true
    }
}

impl vstd::std_specs::cmp::PartialEqSpecImpl for WrappedDashSet {
    open spec fn obeys_eq_spec() -> bool {
        true
    }

    open spec fn eq_spec(&self, other: &WrappedDashSet) -> bool {
        self@.subset_of(other@)
    }
}

impl Eq for WrappedDashSet {}

/// A copy of an atomic value.
pub(crate) fn copy_atomic(v: &StoredAtomicValue) -> (r: StoredAtomicValue)
    ensures
        r == *v,
{
    match v {
        StoredAtomicValue::IntValue(i) => StoredAtomicValue::IntValue(*i),
        StoredAtomicValue::StringValue(s) => StoredAtomicValue::StringValue(s.clone()),
        StoredAtomicValue::BoolValue(b) => StoredAtomicValue::BoolValue(*b),
    }
}

/// Whether two atomic values are equal: the same kind and the same content.
pub(crate) fn atomic_equals(a: &StoredAtomicValue, b: &StoredAtomicValue) -> (r: bool)
    ensures
        r == (a@ == b@),
{
    match (a, b) {
        (StoredAtomicValue::IntValue(x), StoredAtomicValue::IntValue(y)) => *x == *y,
        (StoredAtomicValue::StringValue(x), StoredAtomicValue::StringValue(y)) => x.eq(y),
        (StoredAtomicValue::BoolValue(x), StoredAtomicValue::BoolValue(y)) => *x == *y,
        _ => false,
    }
}

/// What a stored value is.
pub enum StoredView {
    AtomicVal(AtomicView),
    SetVal(Set<AtomicView>),
    ListVal(Seq<AtomicView>),
}

/// What a stored entry is: its value and its expiry moment.
pub struct EntryView {
    pub value: StoredView,
    pub expiry_timestamp_micros: u64,
}

/// The views of the elements of a list.
pub open spec fn list_view(l: Seq<StoredAtomicValue>) -> Seq<AtomicView> {
    l.map_values(|v: StoredAtomicValue| v@)
}

/// A value as the cache stores it.
#[derive(Eq, PartialEq, Clone, Debug)]
pub enum StoredFrValue {
    AtomicValue(StoredAtomicValue),
    SetValue(WrappedDashSet),
    ListValue(Vec<StoredAtomicValue>),
}

impl View for StoredFrValue {
    type V = StoredView;

    open spec fn view(&self) -> StoredView {
        match self {
            StoredFrValue::AtomicValue(a) => StoredView::AtomicVal(a@),
            StoredFrValue::SetValue(s) => StoredView::SetVal(s@),
            StoredFrValue::ListValue(l) => StoredView::ListVal(list_view(l@)),
        }
    }
}

/// A value with the moment at which it expires.
#[derive(Eq, PartialEq, Clone, Debug)]
pub struct StoredFrValueWithExpiry {
    pub value: StoredFrValue,
    pub expiry_timestamp_micros: u64,
}

impl View for StoredFrValueWithExpiry {
    type V = EntryView;

    open spec fn view(&self) -> EntryView {
        EntryView { value: self.value@, expiry_timestamp_micros: self.expiry_timestamp_micros }
    }
}

/// The integer a stored value holds, if it holds one.
pub open spec fn held_int(v: StoredView) -> Option<i32> {
    match v {
        StoredView::AtomicVal(AtomicView::Int(i)) => Some(i),
        _ => None,
    }
}

/// The string a stored value holds, if it holds one.
pub open spec fn held_string(v: StoredView) -> Option<Seq<char>> {
    match v {
        StoredView::AtomicVal(AtomicView::Str(s)) => Some(s),
        _ => None,
    }
}

/// The boolean a stored value holds, if it holds one.
pub open spec fn held_bool(v: StoredView) -> Option<bool> {
    match v {
        StoredView::AtomicVal(AtomicView::Bool(b)) => Some(b),
        _ => None,
    }
}

/// The set a stored value holds, if it holds one.
pub open spec fn held_set(v: StoredView) -> Option<Set<AtomicView>> {
    match v {
        StoredView::SetVal(s) => Some(s),
        _ => None,
    }
}

/// The list a stored value holds, if it holds one.
pub open spec fn held_list(v: StoredView) -> Option<Seq<AtomicView>> {
    match v {
        StoredView::ListVal(l) => Some(l),
        _ => None,
    }
}

impl StoredFrValueWithExpiry {
    /// The integer this entry holds, or an error when it holds something else.
    pub fn as_int(&self) -> (r: Result<&i32, &str>)
        ensures
            match r {
                Ok(v) => held_int(self@.value) == Some(*v),
                Err(e) => held_int(self@.value) is None && e@ == "Not IntValue!"@,
            },
    {
        if let StoredFrValueWithExpiry {
            value: StoredFrValue::AtomicValue(StoredAtomicValue::IntValue(v)),
            ..
        } = self {
            Ok(v)
        } else {
            Err("Not IntValue!")
        }
    }

    /// A mutable reference to the integer this entry holds, or an error when it holds
    /// something else.
    pub fn as_mut_int(&mut self) -> (r: Result<&mut i32, &str>)
        ensures
            match r {
                Ok(v) => {
                    &&& held_int(old(self)@.value) == Some(*v)
                    &&& final(self)@ == (EntryView {
                        value: StoredView::AtomicVal(AtomicView::Int(*final(v))),
                        expiry_timestamp_micros: old(self).expiry_timestamp_micros,
                    })
                },
                Err(e) => {
                    &&& held_int(old(self)@.value) is None
                    &&& e@ == "Not IntValue!"@
                    &&& *final(self) == *old(self)
                },
            },
    {
        if let StoredFrValueWithExpiry {
            value: StoredFrValue::AtomicValue(StoredAtomicValue::IntValue(v)),
            ..
        } = self {
            Ok(v)
        } else {
            Err("Not IntValue!")
        }
    }

    /// The string this entry holds, or an error when it holds something else.
    pub fn as_string(&self) -> (r: Result<&String, &str>)
        ensures
            match r {
                Ok(v) => held_string(self@.value) == Some(v@),
                Err(e) => held_string(self@.value) is None && e@ == "Not IntValue!"@,
            },
    {
        if let StoredFrValueWithExpiry {
            value: StoredFrValue::AtomicValue(StoredAtomicValue::StringValue(v)),
            ..
        } = self {
            Ok(v)
        } else {
            Err("Not IntValue!")
        }
    }

    /// The boolean this entry holds, or an error when it holds something else.
    pub fn as_bool(&self) -> (r: Result<bool, &str>)
        ensures
            match r {
                Ok(v) => held_bool(self@.value) == Some(v),
                Err(e) => held_bool(self@.value) is None && e@ == "Not IntValue!"@,
            },
    {
        if let StoredFrValueWithExpiry {
            value: StoredFrValue::AtomicValue(StoredAtomicValue::BoolValue(v)),
            ..
        } = self {
            Ok(*v)
        } else {
            Err("Not IntValue!")
        }
    }

    /// The set this entry holds, or an error when it holds something else.
    pub fn as_set(&self) -> (r: Result<&DashSet<StoredAtomicValue>, &str>)
        ensures
            match r {
                Ok(v) => held_set(self@.value) == Some(dash_set_contents(*v)),
                Err(e) => held_set(self@.value) is None && e@ == "Not SetValue!"@,
            },
    {
        if let StoredFrValueWithExpiry { value: StoredFrValue::SetValue(v), .. } = self {
            Ok(&v.wrapped_set)
        } else {
            Err("Not SetValue!")
        }
    }

    /// A mutable reference to the set this entry holds, or an error when it holds
    /// something else.
    pub fn as_mut_set(&mut self) -> (r: Result<&mut DashSet<StoredAtomicValue>, &str>)
        ensures
            match r {
                Ok(v) => {
                    &&& held_set(old(self)@.value) == Some(dash_set_contents(*v))
                    &&& final(self)@ == (EntryView {
                        value: StoredView::SetVal(dash_set_contents(*final(v))),
                        expiry_timestamp_micros: old(self).expiry_timestamp_micros,
                    })
                },
                Err(e) => {
                    &&& held_set(old(self)@.value) is None
                    &&& e@ == "Not SetValue!"@
                    &&& *final(self) == *old(self)
                },
            },
    {
        if let StoredFrValueWithExpiry { value: StoredFrValue::SetValue(v), .. } = self {
            Ok(&mut v.wrapped_set)
        } else {
            Err("Not SetValue!")
        }
    }

    /// The list this entry holds, or an error when it holds something else.
    pub fn as_list(&self) -> (r: Result<&Vec<StoredAtomicValue>, &str>)
        ensures
            match r {
                Ok(v) => held_list(self@.value) == Some(list_view(v@)),
                Err(e) => held_list(self@.value) is None && e@ == "Not ListValue!"@,
            },
    {
        if let StoredFrValueWithExpiry { value: StoredFrValue::ListValue(v), .. } = self {
            Ok(v)
        } else {
            Err("Not ListValue!")
        }
    }

    /// A mutable reference to the list this entry holds, or an error when it holds
    /// something else.
    pub fn as_mut_list(&mut self) -> (r: Result<&mut Vec<StoredAtomicValue>, &str>)
        ensures
            match r {
                Ok(v) => {
                    &&& held_list(old(self)@.value) == Some(list_view(v@))
                    &&& final(self)@ == (EntryView {
                        value: StoredView::ListVal(list_view(final(v)@)),
                        expiry_timestamp_micros: old(self).expiry_timestamp_micros,
                    })
                },
                Err(e) => {
                    &&& held_list(old(self)@.value) is None
                    &&& e@ == "Not ListValue!"@
                    &&& *final(self) == *old(self)
                },
            },
    {
        if let StoredFrValueWithExpiry { value: StoredFrValue::ListValue(v), .. } = self {
            Ok(v)
        } else {
            Err("Not ListValue!")
        }
    }
}

/// Every message of the sequence carries an atomic value.
pub open spec fn all_present(vs: Seq<AtomicFrValue>) -> bool {
    forall|i: int| 0 <= i < vs.len() ==> (#[trigger] vs[i]).value is Some
}

/// The atomic values a sequence of messages carries (meaningful where all carry one).
pub open spec fn messages_view(vs: Seq<AtomicFrValue>) -> Seq<AtomicView> {
    vs.map_values(|a: AtomicFrValue| atomic_message_view(a).unwrap())
}

/// A message that the cache can store: it holds a value, an atomic one is an integer
/// or a string, and every element of a set or a list carries an atomic value.
pub open spec fn fr_value_is_storable(v: FrValue) -> bool {
    match v.value {
        Some(fr_value::Value::AtomicValue(a)) => match a.value {
            Some(atomic_fr_value::Value::IntValue(_)) => true,
            Some(atomic_fr_value::Value::StringValue(_)) => true,
            _ => false,
        },
        Some(fr_value::Value::SetValue(sv)) => all_present(sv.values@),
        Some(fr_value::Value::ListValue(lv)) => all_present(lv.values@),
        None => false,
    }
}

/// The entry a storable message describes: a set keeps each distinct element once.
pub open spec fn entry_of_message(v: FrValue) -> EntryView {
    EntryView {
        value: match v.value {
            Some(fr_value::Value::AtomicValue(a)) => StoredView::AtomicVal(atomic_message_view(a).unwrap()),
            Some(fr_value::Value::SetValue(sv)) => StoredView::SetVal(messages_view(sv.values@).to_set()),
            Some(fr_value::Value::ListValue(lv)) => StoredView::ListVal(messages_view(lv.values@)),
            None => StoredView::ListVal(Seq::empty()),
        },
        expiry_timestamp_micros: v.expiry_timestamp_micros,
    }
}

/// Whether the cache can store the message.
pub fn is_storable(v: &FrValue) -> (r: bool)
    ensures
        r == fr_value_is_storable(*v),
{
    match &v.value {
        Some(fr_value::Value::AtomicValue(a)) => match &a.value {
            Some(atomic_fr_value::Value::IntValue(_)) => true,
            Some(atomic_fr_value::Value::StringValue(_)) => true,
            _ => false,
        },
        Some(fr_value::Value::SetValue(sv)) => all_carry_values(&sv.values),
        Some(fr_value::Value::ListValue(lv)) => all_carry_values(&lv.values),
        None => false,
    }
}

/// Whether every message carries an atomic value.
fn all_carry_values(vs: &Vec<AtomicFrValue>) -> (r: bool)
    ensures
        r == all_present(vs@),
{
    let mut i: usize = 0;
    while i < vs.len()
        invariant
            i <= vs.len(),
            forall|j: int| 0 <= j < i ==> (#[trigger] vs@[j]).value is Some,
        decreases vs.len() - i,
    {
        if vs[i].value.is_none() {
            return false;
        }
        i = i + 1;
    }
    true
}

/// The message `r` describes the entry `e`: same expiry and same kind, an atomic value
/// the same, a list element by element, and a set each element exactly once in some order.
pub open spec fn message_describes(r: FrValue, e: EntryView) -> bool {
    &&& r.expiry_timestamp_micros == e.expiry_timestamp_micros
    &&& match e.value {
        StoredView::AtomicVal(a) => r.value matches Some(fr_value::Value::AtomicValue(m))
            && atomic_message_view(m) == Some(a),
        StoredView::SetVal(st) => r.value matches Some(fr_value::Value::SetValue(sv))
            && all_present(sv.values@)
            && messages_view(sv.values@).to_set() == st
            && messages_view(sv.values@).no_duplicates(),
        StoredView::ListVal(l) => r.value matches Some(fr_value::Value::ListValue(lv))
            && all_present(lv.values@)
            && messages_view(lv.values@) == l,
    }
}

/// The stored atomic value a message carries.
fn stored_atomic_of(a: &AtomicFrValue) -> (r: StoredAtomicValue)
    requires
        a.value is Some,
    ensures
        atomic_message_view(*a) == Some(r@),
{
    match &a.value {
        Some(atomic_fr_value::Value::IntValue(v)) => StoredAtomicValue::IntValue(*v),
        Some(atomic_fr_value::Value::StringValue(v)) => StoredAtomicValue::StringValue(v.clone()),
        Some(atomic_fr_value::Value::BoolValue(v)) => StoredAtomicValue::BoolValue(*v),
        // not reached: the message carries a value
        None => StoredAtomicValue::BoolValue(false),
    }
}

/// The list of stored values that a sequence of messages carries.
fn stored_list_of(vs: &Vec<AtomicFrValue>) -> (r: Vec<StoredAtomicValue>)
    requires
        all_present(vs@),
    ensures
        list_view(r@) == messages_view(vs@),
{
    let mut r: Vec<StoredAtomicValue> = Vec::new();
    let mut i: usize = 0;
    while i < vs.len()
        invariant
            i <= vs.len(),
            all_present(vs@),
            list_view(r@) == messages_view(vs@.subrange(0, i as int)),
        decreases vs.len() - i,
    {
        let a = stored_atomic_of(&vs[i]);
        r.push(a);
        proof {
            assert(messages_view(vs@.subrange(0, i + 1)) =~= messages_view(vs@.subrange(0, i as int)).push(atomic_message_view(vs@[i as int]).unwrap()));
            assert(list_view(r@) =~= messages_view(vs@.subrange(0, i + 1)));
        }
        i = i + 1;
    }
    proof {
        assert(vs@.subrange(0, vs.len() as int) =~= vs@);
    }
    r
}

/// The set of stored values that a sequence of messages carries.
fn stored_set_of(vs: &Vec<AtomicFrValue>) -> (r: DashSet<StoredAtomicValue>)
    requires
        all_present(vs@),
    ensures
        dash_set_contents(r) == messages_view(vs@).to_set(),
{
    let mut r = dash_set_new();
    let mut i: usize = 0;
    while i < vs.len()
        invariant
            i <= vs.len(),
            all_present(vs@),
            dash_set_contents(r) == messages_view(vs@.subrange(0, i as int)).to_set(),
        decreases vs.len() - i,
    {
        let a = stored_atomic_of(&vs[i]);
        dash_set_insert(&mut r, a);
        proof {
            let pre = messages_view(vs@.subrange(0, i as int));
            let x = atomic_message_view(vs@[i as int]).unwrap();
            assert(messages_view(vs@.subrange(0, i + 1)) =~= pre + seq![x]);
            Seq::lemma_to_set_insert_commutes(pre, x);
        }
        i = i + 1;
    }
    proof {
        assert(vs@.subrange(0, vs.len() as int) =~= vs@);
    }
    r
}

/// The messages that carry a list of stored values, in order.
fn messages_of(vs: &Vec<StoredAtomicValue>) -> (r: Vec<AtomicFrValue>)
    ensures
        all_present(r@),
        messages_view(r@) == list_view(vs@),
{
    let mut r: Vec<AtomicFrValue> = Vec::new();
    let mut i: usize = 0;
    while i < vs.len()
        invariant
            i <= vs.len(),
            all_present(r@),
            messages_view(r@) == list_view(vs@.subrange(0, i as int)),
        decreases vs.len() - i,
    {
        let m = vs[i].to_atomic_fr_value();
        r.push(m);
        proof {
            assert(list_view(vs@.subrange(0, i + 1)) =~= list_view(vs@.subrange(0, i as int)).push(vs@[i as int]@));
            assert(messages_view(r@) =~= list_view(vs@.subrange(0, i + 1)));
        }
        i = i + 1;
    }
    proof {
        assert(vs@.subrange(0, vs.len() as int) =~= vs@);
    }
    r
}

impl StoredFrValueWithExpiry {
    /// The entry a message describes; the message must be storable.
    pub fn from_fr_value(fr_value: FrValue) -> (r: StoredFrValueWithExpiry)
        requires
            fr_value_is_storable(fr_value),
        ensures
            r@ == entry_of_message(fr_value),
    {
        Self::from_fr_value_ref(&fr_value)
    }

    /// The entry a message describes, read from a borrowed message.
    pub(crate) fn from_fr_value_ref(fr_value: &FrValue) -> (r: StoredFrValueWithExpiry)
        requires
            fr_value_is_storable(*fr_value),
        ensures
            r@ == entry_of_message(*fr_value),
    {
        let value = match &fr_value.value {
            Some(fr_value::Value::AtomicValue(a)) => StoredFrValue::AtomicValue(stored_atomic_of(a)),
            Some(fr_value::Value::SetValue(sv)) => StoredFrValue::SetValue(
                WrappedDashSet { wrapped_set: stored_set_of(&sv.values) },
            ),
            Some(fr_value::Value::ListValue(lv)) => StoredFrValue::ListValue(stored_list_of(&lv.values)),
            // not reached: a storable message holds a value
            None => StoredFrValue::ListValue(Vec::new()),
        };
        StoredFrValueWithExpiry { value, expiry_timestamp_micros: fr_value.expiry_timestamp_micros }
    }

    /// The message that describes this entry; a set's elements come in the order in
    /// which the set is walked.
    pub fn to_fr_value(&self) -> (r: FrValue)
        ensures
            message_describes(r, self@),
    {
        match &self.value {
            StoredFrValue::AtomicValue(v) => FrValue {
                value: Some(fr_value::Value::AtomicValue(v.to_atomic_fr_value())),
                expiry_timestamp_micros: self.expiry_timestamp_micros,
            },
            StoredFrValue::SetValue(v) => {
                let elements = dash_set_elements(&v.wrapped_set);
                let values = messages_of(&elements);
                FrValue {
                    value: Some(fr_value::Value::SetValue(SetValue { values })),
                    expiry_timestamp_micros: self.expiry_timestamp_micros,
                }
            },
            StoredFrValue::ListValue(v) => FrValue {
                value: Some(fr_value::Value::ListValue(ListValue { values: messages_of(v) })),
                expiry_timestamp_micros: self.expiry_timestamp_micros,
            },
        }
    }
}

/// The map from keys to entries that the cache keeps.
pub type CacheFRMap = DashMap<FrKey, StoredFrValueWithExpiry>;

} // verus!
