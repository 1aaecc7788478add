//! Commands on set values.
use vstd::prelude::*;
use crate::commands::get::{copy_key, entry_at, expire_key, get_from_map_as_mut, maybe_entry_view};
use crate::commands::int_operations::atomic_result_view;
use crate::commands_proto::{AtomicFrValue, FrKey};
use crate::dash_collections::{
    cache_map_contents, cache_map_insert, dash_set_contains, dash_set_contents, dash_set_insert,
    dash_set_remove,
};
use crate::value_structs::{
    atomic_message_view, copy_atomic, held_set, AtomicView, CacheFRMap, EntryView,
    StoredAtomicValue, StoredView,
};

verus! {

/// The map with the key's set replaced by `st`, its expiry kept.
pub open spec fn with_set(m: Map<Option<Seq<char>>, EntryView>, k: Option<Seq<char>>, st: Set<AtomicView>) -> Map<Option<Seq<char>>, EntryView> {
    m.insert(k, EntryView { value: StoredView::SetVal(st), ..m[k] })
}

/// The error a value that is not a set gives.
pub open spec fn not_a_set_error() -> Seq<char> {
    "Error while parsing value to mut set: Not SetValue!"@
}

/// What adding `v` does to a map whose entry under `k` is alive (or absent).
pub open spec fn set_add_outcome(m: Map<Option<Seq<char>>, EntryView>, k: Option<Seq<char>>, v: AtomicView) -> (Result<AtomicView, Seq<char>>, Map<Option<Seq<char>>, EntryView>) {
    if !m.contains_key(k) {
        (Err("Key does not exist"@), m)
    } else {
        match held_set(m[k].value) {
            Some(st) => (Ok(v), with_set(m, k, st.insert(v))),
            None => (Err(not_a_set_error()), m),
        }
    }
}

/// Adds the value to the set stored under the key and hands it back. A key that is
/// absent or has expired gives "Key does not exist"; a value that is not a set gives an
/// error and is left as it was.
pub fn set_add(main_map: &mut CacheFRMap, key: FrKey, value: AtomicFrValue) -> (r: Result<StoredAtomicValue, String>)
    requires
        value.value is Some,
    ensures
        exists|now: u64| (atomic_result_view(r), cache_map_contents(*final(main_map)))
            == set_add_outcome(expire_key(cache_map_contents(*old(main_map)), key@, now), key@, atomic_message_view(value).unwrap()),
{
    let ghost old_contents = cache_map_contents(*main_map);
    let maybe_old_value = get_from_map_as_mut(main_map, copy_key(&key));
    let ghost now = choose|now: u64| {
        &&& cache_map_contents(*main_map) == expire_key(old_contents, key@, now)
        &&& maybe_entry_view(maybe_old_value) == entry_at(cache_map_contents(*main_map), key@)
    };
    let ghost live = cache_map_contents(*main_map);
    match maybe_old_value {
        Some(mut old_value) => {
            match old_value.as_mut_set() {
                Ok(old_value_as_set) => {
                    let value_to_insert = StoredAtomicValue::from_atomic_fr_value(value);
                    dash_set_insert(old_value_as_set, copy_atomic(&value_to_insert));
                    cache_map_insert(main_map, key, old_value);
                    proof {
                        assert(cache_map_contents(*main_map) =~= set_add_outcome(live, key@, value_to_insert@).1);
                    }
                    Ok(value_to_insert)
                },
                Err(_) => Err("Error while parsing value to mut set: Not SetValue!".to_string()),
            }
        },
        None => Err("Key does not exist".to_string()),
    }
}

/// What removing `v` does to a map whose entry under `k` is alive (or absent): a set
/// without `v` gives "Value does not exist".
pub open spec fn set_remove_outcome(m: Map<Option<Seq<char>>, EntryView>, k: Option<Seq<char>>, v: AtomicView) -> (Result<AtomicView, Seq<char>>, Map<Option<Seq<char>>, EntryView>) {
    if !m.contains_key(k) {
        (Err("Key does not exist"@), m)
    } else {
        match held_set(m[k].value) {
            Some(st) => if st.contains(v) {
                (Ok(v), with_set(m, k, st.remove(v)))
            } else {
                (Err("Value does not exist"@), m)
            },
            None => (Err(not_a_set_error()), m),
        }
    }
}

/// Removes the value from the set stored under the key and hands back the element
/// removed. A set without the value gives "Value does not exist"; a key that is absent or
/// has expired gives "Key does not exist"; a value that is not a set gives an error.
pub fn set_remove(main_map: &mut CacheFRMap, key: FrKey, value: AtomicFrValue) -> (r: Result<StoredAtomicValue, String>)
    requires
        value.value is Some,
    ensures
        exists|now: u64| (atomic_result_view(r), cache_map_contents(*final(main_map)))
            == set_remove_outcome(expire_key(cache_map_contents(*old(main_map)), key@, now), key@, atomic_message_view(value).unwrap()),
{
    let ghost old_contents = cache_map_contents(*main_map);
    let maybe_old_value = get_from_map_as_mut(main_map, copy_key(&key));
    let ghost now = choose|now: u64| {
        &&& cache_map_contents(*main_map) == expire_key(old_contents, key@, now)
        &&& maybe_entry_view(maybe_old_value) == entry_at(cache_map_contents(*main_map), key@)
    };
    let ghost live = cache_map_contents(*main_map);
    match maybe_old_value {
        Some(mut old_value) => {
            match old_value.as_mut_set() {
                Ok(old_value_as_set) => {
                    let value_to_remove = StoredAtomicValue::from_atomic_fr_value(value);
                    let removed_value = dash_set_remove(old_value_as_set, &value_to_remove);
                    match removed_value {
                        Some(v) => {
                            cache_map_insert(main_map, key, old_value);
                            proof {
                                assert(cache_map_contents(*main_map) =~= set_remove_outcome(live, key@, value_to_remove@).1);
                            }
                            Ok(v)
                        },
                        None => Err("Value does not exist".to_string()),
                    }
                },
                Err(_) => Err("Error while parsing value to mut set: Not SetValue!".to_string()),
            }
        },
        None => Err("Key does not exist".to_string()),
    }
}

/// What asking whether the set holds `v` gives, on a map whose entry under `k` is alive
/// (or absent); the map is left as it is.
pub open spec fn set_contains_outcome(m: Map<Option<Seq<char>>, EntryView>, k: Option<Seq<char>>, v: AtomicView) -> (Result<bool, Seq<char>>, Map<Option<Seq<char>>, EntryView>) {
    if !m.contains_key(k) {
        (Err("Key does not exist"@), m)
    } else {
        match held_set(m[k].value) {
            Some(st) => (Ok(st.contains(v)), m),
            None => (Err("Error while parsing value to set: Not SetValue!"@), m),
        }
    }
}

/// The view of a command's boolean result, or of its error's text.
pub open spec fn bool_result_view(r: Result<bool, String>) -> Result<bool, Seq<char>> {
    match r {
        Ok(b) => Ok(b),
        Err(e) => Err(e@),
    }
}

/// Whether the set stored under the key holds the value. A key that is absent or has
/// expired gives "Key does not exist"; a value that is not a set gives an error.
pub fn set_contains(main_map: &mut CacheFRMap, key: FrKey, value: AtomicFrValue) -> (r: Result<bool, String>)
    requires
        value.value is Some,
    ensures
        exists|now: u64| (bool_result_view(r), cache_map_contents(*final(main_map)))
            == set_contains_outcome(expire_key(cache_map_contents(*old(main_map)), key@, now), key@, atomic_message_view(value).unwrap()),
{
    let ghost old_contents = cache_map_contents(*main_map);
    let maybe_old_value = get_from_map_as_mut(main_map, copy_key(&key));
    let ghost now = choose|now: u64| {
        &&& cache_map_contents(*main_map) == expire_key(old_contents, key@, now)
        &&& maybe_entry_view(maybe_old_value) == entry_at(cache_map_contents(*main_map), key@)
    };
    match maybe_old_value {
        Some(old_value) => {
            match old_value.as_set() {
                Ok(stored_set) => {
                    let searched = StoredAtomicValue::from_atomic_fr_value(value);
                    Ok(dash_set_contains(stored_set, &searched))
                },
                Err(_) => Err("Error while parsing value to set: Not SetValue!".to_string()),
            }
        },
        None => Err("Key does not exist".to_string()),
    }
}

} // verus!
