//! The concurrent map and set of the `dashmap` crate, as this library uses them: the
//! types, a name for what each holds, and the calls the library makes, each with what it
//! does to the contents.
use vstd::prelude::*;
use dashmap::{DashMap, DashSet};
use crate::commands_proto::FrKey;
use crate::value_structs::{AtomicView, CacheFRMap, EntryView, StoredAtomicValue, StoredFrValueWithExpiry};

verus! {

#[verifier::external_type_specification]
#[verifier::external_body]
#[verifier::reject_recursive_types(K)]
#[verifier::reject_recursive_types(S)]
pub struct ExDashSet<K, S>(DashSet<K, S>);

#[verifier::external_type_specification]
#[verifier::external_body]
#[verifier::reject_recursive_types(K)]
#[verifier::reject_recursive_types(V)]
#[verifier::reject_recursive_types(S)]
pub struct ExDashMap<K, V, S>(DashMap<K, V, S>);

/// What a `DashMap` of the cache holds: each key, by its view, with the view of its
/// entry. Keys compare with the derived `Eq` of `FrKey`, which is equality of views.
pub uninterp spec fn cache_map_contents(m: DashMap<FrKey, StoredFrValueWithExpiry>) -> Map<Option<Seq<char>>, EntryView>;

/// `DashMap::new`. Claimed: the new map holds no entry.
#[verifier::external_body]
pub(crate) fn cache_map_new() -> (r: CacheFRMap)
    ensures
        cache_map_contents(r).is_empty(),
{
    DashMap::new()
}

/// `DashMap::len`. Claimed: the number of keys the map holds.
#[verifier::external_body]
pub(crate) fn cache_map_len(m: &CacheFRMap) -> (r: usize)
    ensures
        r == cache_map_contents(*m).len(),
{
    m.len()
}

/// `DashMap::get`, the entry cloned out of the guard it comes in. Claimed: the entry the
/// map holds under the key (a clone of it, with the same view), or nothing exactly when
/// the key is absent.
#[verifier::external_body]
pub(crate) fn cache_map_get(m: &CacheFRMap, k: &FrKey) -> (r: Option<StoredFrValueWithExpiry>)
    ensures
        match r {
            Some(v) => cache_map_contents(*m).contains_key(k@) && v@ == cache_map_contents(*m)[k@],
            None => !cache_map_contents(*m).contains_key(k@),
        },
{
    m.get(k).map(|e| e.value().clone())
}

/// `DashMap::contains_key`. Claimed: whether the map holds the key.
#[verifier::external_body]
pub(crate) fn cache_map_contains_key(m: &CacheFRMap, k: &FrKey) -> (r: bool)
    ensures
        r == cache_map_contents(*m).contains_key(k@),
{
    m.contains_key(k)
}

/// `DashMap::insert`. Claimed: afterwards the key maps to the entry and every other key
/// to what it did; the entry it replaced is handed back, or nothing when there was none.
#[verifier::external_body]
pub(crate) fn cache_map_insert(m: &mut CacheFRMap, k: FrKey, v: StoredFrValueWithExpiry) -> (r: Option<StoredFrValueWithExpiry>)
    ensures
        cache_map_contents(*final(m)) == cache_map_contents(*old(m)).insert(k@, v@),
        match r {
            Some(w) => cache_map_contents(*old(m)).contains_key(k@) && w@ == cache_map_contents(*old(m))[k@],
            None => !cache_map_contents(*old(m)).contains_key(k@),
        },
{
    m.insert(k, v)
}

/// `DashMap::remove`. Claimed: afterwards the key is absent and every other key is as it
/// was; the key and entry removed are handed back, or nothing when the key was absent.
#[verifier::external_body]
pub(crate) fn cache_map_remove(m: &mut CacheFRMap, k: &FrKey) -> (r: Option<(FrKey, StoredFrValueWithExpiry)>)
    ensures
        cache_map_contents(*final(m)) == cache_map_contents(*old(m)).remove(k@),
        match r {
            Some((k2, w)) => k2@ == k@ && cache_map_contents(*old(m)).contains_key(k@) && w@ == cache_map_contents(*old(m))[k@],
            None => !cache_map_contents(*old(m)).contains_key(k@),
        },
{
    m.remove(k)
}

/// What a `DashSet` of the cache holds: its elements, by their views. Elements compare
/// with the derived `Eq` of `StoredAtomicValue`, which is equality of views.
pub uninterp spec fn dash_set_contents(s: DashSet<StoredAtomicValue>) -> Set<AtomicView>;

/// `DashSet::new`. Claimed: the new set is empty.
#[verifier::external_body]
pub(crate) fn dash_set_new() -> (r: DashSet<StoredAtomicValue>)
    ensures
        dash_set_contents(r) == Set::<AtomicView>::empty(),
{
    DashSet::new()
}

/// `DashSet::insert`. Claimed: afterwards the set holds the value besides what it held;
/// the answer is true exactly when it did not hold it before.
#[verifier::external_body]
pub(crate) fn dash_set_insert(s: &mut DashSet<StoredAtomicValue>, v: StoredAtomicValue) -> (r: bool)
    ensures
        dash_set_contents(*final(s)) == dash_set_contents(*old(s)).insert(v@),
        r == !dash_set_contents(*old(s)).contains(v@),
{
    s.insert(v)
}

/// `DashSet::remove`. Claimed: afterwards the set lacks the value and is otherwise as it
/// was; the element removed (equal to the value) is handed back, or nothing when the set
/// did not hold it.
#[verifier::external_body]
pub(crate) fn dash_set_remove(s: &mut DashSet<StoredAtomicValue>, v: &StoredAtomicValue) -> (r: Option<StoredAtomicValue>)
    ensures
        dash_set_contents(*final(s)) == dash_set_contents(*old(s)).remove(v@),
        match r {
            Some(w) => w@ == v@ && dash_set_contents(*old(s)).contains(v@),
            None => !dash_set_contents(*old(s)).contains(v@),
        },
{
    s.remove(v)
}

/// `DashSet::contains`. Claimed: whether the set holds the value.
#[verifier::external_body]
pub(crate) fn dash_set_contains(s: &DashSet<StoredAtomicValue>, v: &StoredAtomicValue) -> (r: bool)
    ensures
        r == dash_set_contents(*s).contains(v@),
{
    s.contains(v)
}

/// `DashSet::iter`, each element cloned and collected. Claimed: every element of the set
/// exactly once. Not stated: the order, which is that in which the shards and their
/// tables are walked.
#[verifier::external_body]
pub(crate) fn dash_set_elements(s: &DashSet<StoredAtomicValue>) -> (r: Vec<StoredAtomicValue>)
    ensures
        r@.map_values(|v: StoredAtomicValue| v@).to_set() == dash_set_contents(*s),
        r@.map_values(|v: StoredAtomicValue| v@).no_duplicates(),
{
    s.iter().map(|e| e.key().clone()).collect()
}

} // verus!
