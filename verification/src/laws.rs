//! What holds of the cache across its operations.
use vstd::prelude::*;
use crate::commands::get::{entry_at, expire_key, is_alive};
use crate::commands::int_operations::increment_outcome;
use crate::commands::list_operations::{
    append_outcome, differs_from, first_appearance_outcome, first_index_of, remove_all_outcome,
    remove_at_outcome,
};
use crate::commands::set::set_outcome;
use crate::commands::set_operations::{set_add_outcome, set_contains_outcome, set_remove_outcome};
use crate::commands_proto::{AtomicFrValue, FrValue};
use crate::consts::NO_EXPIRY;
use crate::value_structs::{
    atomic_message_view, entry_of_message, fr_value_is_storable, held_bool, held_int, held_list,
    held_set, message_describes, AtomicView, EntryView, StoredView,
};

verus! {

/// After a value is stored under a key (unconditionally, or only-if-absent on a key that
/// is absent), reading the key at any moment at which the value is alive gives back the
/// entry the value describes, and the map keeps it.
pub proof fn lemma_get_after_set(
    m: Map<Option<Seq<char>>, EntryView>,
    k: Option<Seq<char>>,
    v: FrValue,
    only_if_not_exists: bool,
    now: u64,
)
    requires
        fr_value_is_storable(v),
        !(only_if_not_exists && m.contains_key(k)),
        is_alive(entry_of_message(v), now),
    ensures
        set_outcome(m, k, v, only_if_not_exists).0 == Ok::<FrValue, Seq<char>>(v),
        expire_key(set_outcome(m, k, v, only_if_not_exists).1, k, now) == set_outcome(m, k, v, only_if_not_exists).1,
        entry_at(expire_key(set_outcome(m, k, v, only_if_not_exists).1, k, now), k) == Some(entry_of_message(v)),
{
}

/// Storing only-if-absent under a key the map holds is refused with "Key already exists"
/// and leaves the map as it was.
pub proof fn lemma_set_if_absent_refused(
    m: Map<Option<Seq<char>>, EntryView>,
    k: Option<Seq<char>>,
    v: FrValue,
)
    requires
        m.contains_key(k),
    ensures
        set_outcome(m, k, v, true) == (Err::<FrValue, Seq<char>>("Key already exists"@), m),
{
}

/// Storing a value replaces whatever the key held and touches no other key.
pub proof fn lemma_set_touches_only_its_key(
    m: Map<Option<Seq<char>>, EntryView>,
    k: Option<Seq<char>>,
    v: FrValue,
    only_if_not_exists: bool,
    other: Option<Seq<char>>,
)
    requires
        other != k,
    ensures
        entry_at(set_outcome(m, k, v, only_if_not_exists).1, other) == entry_at(m, other),
{
}

/// Reading a key whose entry has expired gives nothing and removes the entry; nothing
/// else changes.
pub proof fn lemma_expired_entry_is_removed(m: Map<Option<Seq<char>>, EntryView>, k: Option<Seq<char>>, now: u64)
    requires
        m.contains_key(k),
        !is_alive(m[k], now),
    ensures
        entry_at(expire_key(m, k, now), k) is None,
        expire_key(m, k, now) == m.remove(k),
{
}

/// An entry that never expires is alive at every moment: reading it changes nothing.
pub proof fn lemma_no_expiry_never_expires(m: Map<Option<Seq<char>>, EntryView>, k: Option<Seq<char>>, now: u64)
    requires
        m.contains_key(k),
        m[k].expiry_timestamp_micros == NO_EXPIRY,
    ensures
        expire_key(m, k, now) == m,
        entry_at(expire_key(m, k, now), k) == Some(m[k]),
{
}

/// An entry that expires at `t` is alive exactly before `t`.
pub proof fn lemma_alive_until_expiry(e: EntryView, now: u64)
    requires
        e.expiry_timestamp_micros != NO_EXPIRY,
    ensures
        is_alive(e, now) <==> now < e.expiry_timestamp_micros,
{
}

/// Dropping an expired entry touches no other key.
pub proof fn lemma_expiry_touches_only_its_key(
    m: Map<Option<Seq<char>>, EntryView>,
    k: Option<Seq<char>>,
    now: u64,
    other: Option<Seq<char>>,
)
    requires
        other != k,
    ensures
        entry_at(expire_key(m, k, now), other) == entry_at(m, other),
{
}

/// Incrementing an integer by `a` and then by `b` leaves the same map as incrementing it
/// by `a + b`, and the second answer is the sum.
pub proof fn lemma_increments_accumulate(
    m: Map<Option<Seq<char>>, EntryView>,
    k: Option<Seq<char>>,
    a: i32,
    b: i32,
)
    requires
        m.contains_key(k),
        held_int(m[k].value) is Some,
        i32::MIN <= held_int(m[k].value).unwrap() + a <= i32::MAX,
        i32::MIN <= held_int(m[k].value).unwrap() + a + b <= i32::MAX,
        i32::MIN <= a + b <= i32::MAX,
    ensures
        increment_outcome(increment_outcome(m, k, a).1, k, b).1 == increment_outcome(m, k, (a + b) as i32).1,
        increment_outcome(increment_outcome(m, k, a).1, k, b).0
            == Ok::<AtomicView, Seq<char>>(AtomicView::Int((held_int(m[k].value).unwrap() + a + b) as i32)),
{
    let m1 = increment_outcome(m, k, a).1;
    assert(m1[k].expiry_timestamp_micros == m[k].expiry_timestamp_micros);
    assert(increment_outcome(m1, k, b).1 =~= increment_outcome(m, k, (a + b) as i32).1);
}

/// Incrementing a key that holds no integer changes nothing.
pub proof fn lemma_increment_of_non_integer_changes_nothing(
    m: Map<Option<Seq<char>>, EntryView>,
    k: Option<Seq<char>>,
    a: i32,
)
    requires
        !(m.contains_key(k) && held_int(m[k].value) is Some),
    ensures
        increment_outcome(m, k, a).1 == m,
        increment_outcome(m, k, a).0 is Err,
{
}

/// Appending makes the list one longer, with the value last and the rest unchanged.
pub proof fn lemma_append_grows_list(
    m: Map<Option<Seq<char>>, EntryView>,
    k: Option<Seq<char>>,
    v: AtomicView,
)
    requires
        m.contains_key(k),
        held_list(m[k].value) is Some,
    ensures
        append_outcome(m, k, v).0 == Ok::<AtomicView, Seq<char>>(v),
        held_list(append_outcome(m, k, v).1[k].value) == Some(held_list(m[k].value).unwrap().push(v)),
        held_list(append_outcome(m, k, v).1[k].value).unwrap().len() == held_list(m[k].value).unwrap().len() + 1,
        append_outcome(m, k, v).1[k].expiry_timestamp_micros == m[k].expiry_timestamp_micros,
{
}

/// Removing at an index right after appending at that index (the old length) gives back
/// the appended value and the list as it was.
pub proof fn lemma_remove_last_undoes_append(
    m: Map<Option<Seq<char>>, EntryView>,
    k: Option<Seq<char>>,
    v: AtomicView,
)
    requires
        m.contains_key(k),
        held_list(m[k].value) is Some,
        held_list(m[k].value).unwrap().len() < i32::MAX,
    ensures
        ({
            let i = held_list(m[k].value).unwrap().len() as i32;
            let after = remove_at_outcome(append_outcome(m, k, v).1, k, i);
            &&& after.0 == Ok::<AtomicView, Seq<char>>(v)
            &&& after.1 == m
        }),
{
    let l = held_list(m[k].value).unwrap();
    assert(l.push(v).remove(l.len() as int) =~= l);
    let e = m[k];
    assert(EntryView { value: StoredView::ListVal(l), ..e } == e);
    let i = l.len() as i32;
    assert(remove_at_outcome(append_outcome(m, k, v).1, k, i).1 =~= m);
}

/// After removing every occurrence of a value, the list holds no occurrence of it, and
/// the count plus the kept elements make up the old length.
pub proof fn lemma_remove_all_leaves_none(
    m: Map<Option<Seq<char>>, EntryView>,
    k: Option<Seq<char>>,
    v: AtomicView,
)
    requires
        m.contains_key(k),
        held_list(m[k].value) is Some,
    ensures
        !held_list(remove_all_outcome(m, k, v).1[k].value).unwrap().contains(v),
        held_list(remove_all_outcome(m, k, v).1[k].value).unwrap().len() <= held_list(m[k].value).unwrap().len(),
{
    let l = held_list(m[k].value).unwrap();
    let kept = l.filter(differs_from(v));
    l.lemma_filter_len(differs_from(v));
    if kept.contains(v) {
        let i = choose|i: int| 0 <= i < kept.len() && kept[i] == v;
        l.lemma_filter_pred(differs_from(v), i);
    }
}

/// The index the first lookup answers holds the value, and no earlier index does.
pub proof fn lemma_first_appearance_is_first(
    m: Map<Option<Seq<char>>, EntryView>,
    k: Option<Seq<char>>,
    v: AtomicView,
)
    requires
        m.contains_key(k),
        held_list(m[k].value) is Some,
        held_list(m[k].value).unwrap().contains(v),
    ensures
        ({
            let l = held_list(m[k].value).unwrap();
            let i = first_index_of(l, v);
            &&& 0 <= i < l.len()
            &&& l[i] == v
            &&& forall|j: int| 0 <= j < i ==> l[j] != v
            &&& first_appearance_outcome(m, k, v) == (Ok::<AtomicView, Seq<char>>(AtomicView::Int(i as i32)), m)
        }),
{
    let l = held_list(m[k].value).unwrap();
    lemma_first_index_exists(l, v);
}

/// A sequence that holds `v` has a first index of `v`.
proof fn lemma_first_index_exists(l: Seq<AtomicView>, v: AtomicView)
    requires
        l.contains(v),
    ensures
        0 <= first_index_of(l, v) < l.len(),
        l[first_index_of(l, v)] == v,
        forall|j: int| 0 <= j < first_index_of(l, v) ==> l[j] != v,
    decreases l.len(),
{
    if l[0] == v {
        assert(0 <= 0int < l.len() && l[0] == v && forall|j: int| 0 <= j < 0 ==> l[j] != v);
    } else {
        let rest = l.subrange(1, l.len() as int);
        let w = choose|w: int| 0 <= w < l.len() && l[w] == v;
        assert(rest[w - 1] == v);
        lemma_first_index_exists(rest, v);
        let i = first_index_of(rest, v) + 1;
        assert(forall|j: int| 1 <= j < i ==> l[j] == rest[j - 1]);
        assert(0 <= i < l.len() && l[i] == v && forall|j: int| 0 <= j < i ==> l[j] != v);
    }
}

/// After adding a value to a set, the set holds it.
pub proof fn lemma_set_add_then_contains(
    m: Map<Option<Seq<char>>, EntryView>,
    k: Option<Seq<char>>,
    v: AtomicView,
)
    requires
        m.contains_key(k),
        held_set(m[k].value) is Some,
    ensures
        set_add_outcome(m, k, v).0 == Ok::<AtomicView, Seq<char>>(v),
        set_contains_outcome(set_add_outcome(m, k, v).1, k, v).0 == Ok::<bool, Seq<char>>(true),
{
}

/// Adding a value twice leaves the set as adding it once.
pub proof fn lemma_set_add_idempotent(
    m: Map<Option<Seq<char>>, EntryView>,
    k: Option<Seq<char>>,
    v: AtomicView,
)
    requires
        m.contains_key(k),
        held_set(m[k].value) is Some,
    ensures
        set_add_outcome(set_add_outcome(m, k, v).1, k, v).1 == set_add_outcome(m, k, v).1,
{
    let st = held_set(m[k].value).unwrap();
    assert(st.insert(v).insert(v) =~= st.insert(v));
    assert(set_add_outcome(set_add_outcome(m, k, v).1, k, v).1 =~= set_add_outcome(m, k, v).1);
}

/// Removing a value right after adding it gives it back and leaves the set without it;
/// a set that did not hold it is then as it was.
pub proof fn lemma_set_remove_after_add(
    m: Map<Option<Seq<char>>, EntryView>,
    k: Option<Seq<char>>,
    v: AtomicView,
)
    requires
        m.contains_key(k),
        held_set(m[k].value) is Some,
    ensures
        set_remove_outcome(set_add_outcome(m, k, v).1, k, v).0 == Ok::<AtomicView, Seq<char>>(v),
        held_set(set_remove_outcome(set_add_outcome(m, k, v).1, k, v).1[k].value)
            == Some(held_set(m[k].value).unwrap().remove(v)),
        !held_set(m[k].value).unwrap().contains(v) ==> set_remove_outcome(set_add_outcome(m, k, v).1, k, v).1 == m,
{
    let st = held_set(m[k].value).unwrap();
    assert(st.insert(v).remove(v) =~= st.remove(v));
    if !st.contains(v) {
        assert(st.remove(v) =~= st);
        let e = m[k];
        assert(EntryView { value: StoredView::SetVal(st), ..e } == e);
        assert(set_remove_outcome(set_add_outcome(m, k, v).1, k, v).1 =~= m);
    }
}

/// Removing a value a set does not hold is refused and changes nothing.
pub proof fn lemma_set_remove_missing(
    m: Map<Option<Seq<char>>, EntryView>,
    k: Option<Seq<char>>,
    v: AtomicView,
)
    requires
        m.contains_key(k),
        held_set(m[k].value) is Some,
        !held_set(m[k].value).unwrap().contains(v),
    ensures
        set_remove_outcome(m, k, v) == (Err::<AtomicView, Seq<char>>("Value does not exist"@), m),
{
}

/// A message carrying an atomic value is read back as that value.
pub proof fn lemma_atomic_round_trip(a: AtomicView, msg: AtomicFrValue)
    requires
        atomic_message_view(msg) == Some(a),
    ensures
        msg.value is Some,
        atomic_message_view(msg).unwrap() == a,
{
}

/// A message that describes an entry (as `to_fr_value` produces) is storable and is read
/// back as that entry, unless the entry holds a boolean, which no message can store.
pub proof fn lemma_entry_round_trip(e: EntryView, r: FrValue)
    requires
        message_describes(r, e),
        held_bool(e.value) is None,
    ensures
        fr_value_is_storable(r),
        entry_of_message(r) == e,
{
}

/// Reading a storable message and writing the entry back out gives a message that
/// describes the same entry: the same expiry, the same atomic value, the same list
/// element by element, the same set of elements.
pub proof fn lemma_message_round_trip(v: FrValue, r: FrValue)
    requires
        fr_value_is_storable(v),
        message_describes(r, entry_of_message(v)),
    ensures
        fr_value_is_storable(r),
        entry_of_message(r) == entry_of_message(v),
{
    lemma_entry_round_trip(entry_of_message(v), r);
}

/// How many elements of `l` equal `v`.
pub open spec fn occurrences(l: Seq<AtomicView>, v: AtomicView) -> nat
    decreases l.len(),
{
    if l.len() == 0 {
        0
    } else {
        occurrences(l.drop_last(), v) + if l.last() == v { 1nat } else { 0nat }
    }
}

/// Filtering a sequence with one more element at its end.
proof fn lemma_filter_last(a: Seq<AtomicView>, x: AtomicView, p: spec_fn(AtomicView) -> bool)
    ensures
        a.push(x).filter(p) == (if p(x) { a.filter(p).push(x) } else { a.filter(p) }),
{
    reveal(Seq::filter);
    assert(a.push(x).drop_last() =~= a);
}

/// Dropping the elements equal to `v` drops exactly its occurrences, and keeps every
/// other value as often as it occurred.
proof fn lemma_without_counts(l: Seq<AtomicView>, v: AtomicView, x: AtomicView)
    ensures
        l.filter(differs_from(v)).len() + occurrences(l, v) == l.len(),
        occurrences(l.filter(differs_from(v)), x) == if x == v { 0 } else { occurrences(l, x) },
    decreases l.len(),
{
    let p = differs_from(v);
    if l.len() == 0 {
        reveal(Seq::filter);
    } else {
        let a = l.drop_last();
        let y = l.last();
        assert(l =~= a.push(y));
        lemma_without_counts(a, v, x);
        lemma_filter_last(a, y, p);
        assert(p(y) == (y != v));
        if y != v {
            let f = a.filter(p).push(y);
            assert(f.drop_last() =~= a.filter(p));
        }
    }
}

/// Removing every occurrence of a value answers the number of elements of the old list
/// equal to it; the new list is shorter by exactly that number, holds no occurrence of
/// it, and holds every other value as often as the old list did.
pub proof fn lemma_remove_all_counts(
    m: Map<Option<Seq<char>>, EntryView>,
    k: Option<Seq<char>>,
    v: AtomicView,
    x: AtomicView,
)
    requires
        m.contains_key(k),
        held_list(m[k].value) is Some,
        held_list(m[k].value).unwrap().len() <= i32::MAX,
    ensures
        ({
            let l = held_list(m[k].value).unwrap();
            let after = remove_all_outcome(m, k, v);
            let new = held_list(after.1[k].value).unwrap();
            &&& after.0 == Ok::<i32, Seq<char>>(occurrences(l, v) as i32)
            &&& after.0 == Ok::<i32, Seq<char>>((l.len() - new.len()) as i32)
            &&& new.len() + occurrences(l, v) == l.len()
            &&& occurrences(new, v) == 0
            &&& x != v ==> occurrences(new, x) == occurrences(l, x)
            &&& after.1[k].expiry_timestamp_micros == m[k].expiry_timestamp_micros
        }),
{
    let l = held_list(m[k].value).unwrap();
    lemma_without_counts(l, v, x);
    lemma_without_counts(l, v, v);
}

/// Removing at an index inside the list answers the element there; the list loses that
/// element only: the elements before the index stay where they were, the ones after it
/// move one place forward, in order. The expiry and the other keys are untouched.
pub proof fn lemma_remove_at_keeps_order(
    m: Map<Option<Seq<char>>, EntryView>,
    k: Option<Seq<char>>,
    i: i32,
    other: Option<Seq<char>>,
)
    requires
        m.contains_key(k),
        held_list(m[k].value) is Some,
        0 <= i < held_list(m[k].value).unwrap().len(),
    ensures
        ({
            let l = held_list(m[k].value).unwrap();
            let after = remove_at_outcome(m, k, i);
            let new = held_list(after.1[k].value).unwrap();
            &&& after.0 == Ok::<AtomicView, Seq<char>>(l[i as int])
            &&& new.len() == l.len() - 1
            &&& forall|j: int| 0 <= j < i ==> new[j] == l[j]
            &&& forall|j: int| i <= j < new.len() ==> new[j] == l[j + 1]
            &&& after.1[k].expiry_timestamp_micros == m[k].expiry_timestamp_micros
            &&& other != k ==> entry_at(after.1, other) == entry_at(m, other)
        }),
{
}

/// Asking whether a set holds a value answers true exactly when the value is one of its
/// elements, and changes nothing.
pub proof fn lemma_set_contains_is_membership(
    m: Map<Option<Seq<char>>, EntryView>,
    k: Option<Seq<char>>,
    v: AtomicView,
)
    requires
        m.contains_key(k),
        held_set(m[k].value) is Some,
    ensures
        set_contains_outcome(m, k, v).1 == m,
        set_contains_outcome(m, k, v).0 is Ok,
        (set_contains_outcome(m, k, v).0 == Ok::<bool, Seq<char>>(true)) <==> held_set(m[k].value).unwrap().contains(v),
        held_set(m[k].value).unwrap() == Set::<AtomicView>::empty() ==> set_contains_outcome(m, k, v).0 == Ok::<bool, Seq<char>>(false),
{
}

/// After removing a value from a set, asking whether the set holds it answers false;
/// after adding it, true.
pub proof fn lemma_set_contains_after_remove_and_add(
    m: Map<Option<Seq<char>>, EntryView>,
    k: Option<Seq<char>>,
    v: AtomicView,
)
    requires
        m.contains_key(k),
        held_set(m[k].value) is Some,
    ensures
        held_set(m[k].value).unwrap().contains(v) ==> set_contains_outcome(set_remove_outcome(m, k, v).1, k, v).0 == Ok::<bool, Seq<char>>(false),
        !held_set(m[k].value).unwrap().contains(v) ==> set_contains_outcome(m, k, v).0 == Ok::<bool, Seq<char>>(false),
        set_contains_outcome(set_add_outcome(m, k, v).1, k, v).0 == Ok::<bool, Seq<char>>(true),
{
}

/// A command on a key whose entry has expired at the moment the clock is read finds no
/// key: it answers "Key does not exist" and the entry is gone afterwards.
pub proof fn lemma_commands_on_expired_key(
    m: Map<Option<Seq<char>>, EntryView>,
    k: Option<Seq<char>>,
    now: u64,
    amount: i32,
    v: AtomicView,
)
    requires
        m.contains_key(k),
        m[k].expiry_timestamp_micros != NO_EXPIRY,
        m[k].expiry_timestamp_micros <= now,
    ensures
        increment_outcome(expire_key(m, k, now), k, amount) == (Err::<AtomicView, Seq<char>>("Key does not exist"@), m.remove(k)),
        append_outcome(expire_key(m, k, now), k, v) == (Err::<AtomicView, Seq<char>>("Key does not exist"@), m.remove(k)),
        set_add_outcome(expire_key(m, k, now), k, v) == (Err::<AtomicView, Seq<char>>("Key does not exist"@), m.remove(k)),
        entry_at(expire_key(m, k, now), k) is None,
{
}

} // verus!
