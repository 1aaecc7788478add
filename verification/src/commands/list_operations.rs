//! Commands on list values.
use vstd::prelude::*;
use crate::commands::get::{copy_key, entry_at, expire_key, get_from_map_as_mut, maybe_entry_view};
use crate::commands::int_operations::atomic_result_view;
use crate::commands_proto::{AtomicFrValue, FrKey};
use crate::dash_collections::{cache_map_contents, cache_map_insert};
use crate::value_structs::{
    atomic_equals, atomic_message_view, copy_atomic, held_list, list_view, AtomicView,
    CacheFRMap, EntryView, StoredAtomicValue, StoredView,
};

verus! {

/// The map with the key's list replaced by `l`, its expiry kept.
pub open spec fn with_list(m: Map<Option<Seq<char>>, EntryView>, k: Option<Seq<char>>, l: Seq<AtomicView>) -> Map<Option<Seq<char>>, EntryView> {
    m.insert(k, EntryView { value: StoredView::ListVal(l), ..m[k] })
}

/// What appending does to a map whose entry under `k` is alive (or absent).
pub open spec fn append_outcome(m: Map<Option<Seq<char>>, EntryView>, k: Option<Seq<char>>, v: AtomicView) -> (Result<AtomicView, Seq<char>>, Map<Option<Seq<char>>, EntryView>) {
    if !m.contains_key(k) {
        (Err("Key does not exist"@), m)
    } else {
        match held_list(m[k].value) {
            Some(l) => (Ok(v), with_list(m, k, l.push(v))),
            None => (Err("Error while parsing value to list: Not ListValue!"@), m),
        }
    }
}

/// Appends the value to the list stored under the key and hands it back. A key that is
/// absent or has expired gives "Key does not exist"; a value that is not a list gives an
/// error and is left as it was.
pub fn list_append(main_map: &mut CacheFRMap, key: FrKey, value: AtomicFrValue) -> (r: Result<StoredAtomicValue, String>)
    requires
        value.value is Some,
    ensures
        exists|now: u64| (atomic_result_view(r), cache_map_contents(*final(main_map)))
            == append_outcome(expire_key(cache_map_contents(*old(main_map)), key@, now), key@, atomic_message_view(value).unwrap()),
{
    let ghost old_contents = cache_map_contents(*main_map);
    let maybe_old_value = get_from_map_as_mut(main_map, copy_key(&key));
    let ghost now = choose|now: u64| {
        &&& cache_map_contents(*main_map) == expire_key(old_contents, key@, now)
        &&& maybe_entry_view(maybe_old_value) == entry_at(cache_map_contents(*main_map), key@)
    };
    let ghost live = cache_map_contents(*main_map);
    match maybe_old_value {
        Some(mut old_value) => {
            match old_value.as_mut_list() {
                Ok(stored_list) => {
                    let value_to_push = StoredAtomicValue::from_atomic_fr_value(value);
                    stored_list.push(copy_atomic(&value_to_push));
                    proof {
                        assert(list_view(stored_list@) =~= held_list(live[key@].value).unwrap().push(value_to_push@));
                    }
                    cache_map_insert(main_map, key, old_value);
                    proof {
                        assert(cache_map_contents(*main_map) =~= append_outcome(live, key@, value_to_push@).1);
                    }
                    Ok(value_to_push)
                },
                Err(_) => Err("Error while parsing value to list: Not ListValue!".to_string()),
            }
        },
        None => Err("Key does not exist".to_string()),
    }
}

/// The index lies within the key's list, whatever the key holds.
pub open spec fn index_fits(m: Map<Option<Seq<char>>, EntryView>, k: Option<Seq<char>>, index: i32) -> bool {
    m.contains_key(k) && held_list(m[k].value) is Some ==> 0 <= index < held_list(m[k].value).unwrap().len()
}

/// What removing at an index does to a map whose entry under `k` is alive (or absent);
/// an index outside the list gives "Index out of range".
pub open spec fn remove_at_outcome(m: Map<Option<Seq<char>>, EntryView>, k: Option<Seq<char>>, index: i32) -> (Result<AtomicView, Seq<char>>, Map<Option<Seq<char>>, EntryView>) {
    if !m.contains_key(k) {
        (Err("Key does not exist"@), m)
    } else {
        match held_list(m[k].value) {
            Some(l) => if 0 <= index < l.len() {
                (Ok(l[index as int]), with_list(m, k, l.remove(index as int)))
            } else {
                (Err("Index out of range"@), m)
            },
            None => (Err("Error while parsing value to list: Not ListValue!"@), m),
        }
    }
}

/// Removes the element at the index from the list stored under the key and hands it
/// back; the index must lie within the list. A key that is absent or has expired gives
/// "Key does not exist"; a value that is not a list gives an error and is left as it was.
pub fn list_remove(main_map: &mut CacheFRMap, key: FrKey, index: i32) -> (r: Result<StoredAtomicValue, String>)
    requires
        index_fits(cache_map_contents(*old(main_map)), key@, index),
    ensures
        exists|now: u64| (atomic_result_view(r), cache_map_contents(*final(main_map)))
            == remove_at_outcome(expire_key(cache_map_contents(*old(main_map)), key@, now), key@, index),
{
    let ghost old_contents = cache_map_contents(*main_map);
    let maybe_old_value = get_from_map_as_mut(main_map, copy_key(&key));
    let ghost now = choose|now: u64| {
        &&& cache_map_contents(*main_map) == expire_key(old_contents, key@, now)
        &&& maybe_entry_view(maybe_old_value) == entry_at(cache_map_contents(*main_map), key@)
    };
    let ghost live = cache_map_contents(*main_map);
    match maybe_old_value {
        Some(mut old_value) => {
            match old_value.as_mut_list() {
                Ok(stored_list) => {
                    let ghost before = stored_list@;
                    let removed_val = stored_list.remove(index as usize);
                    proof {
                        assert(list_view(stored_list@) =~= list_view(before).remove(index as int));
                    }
                    cache_map_insert(main_map, key, old_value);
                    proof {
                        assert(cache_map_contents(*main_map) =~= remove_at_outcome(live, key@, index).1);
                    }
                    Ok(removed_val)
                },
                Err(_) => Err("Error while parsing value to list: Not ListValue!".to_string()),
            }
        },
        None => Err("Key does not exist".to_string()),
    }
}

/// Removes the element at the index from the list stored under the key and hands it
/// back; an index outside the list gives "Index out of range" and changes nothing.
pub fn list_remove_by_index(main_map: &mut CacheFRMap, key: FrKey, index: i32) -> (r: Result<StoredAtomicValue, String>)
    ensures
        exists|now: u64| (atomic_result_view(r), cache_map_contents(*final(main_map)))
            == remove_at_outcome(expire_key(cache_map_contents(*old(main_map)), key@, now), key@, index),
{
    let ghost old_contents = cache_map_contents(*main_map);
    let maybe_old_value = get_from_map_as_mut(main_map, copy_key(&key));
    let ghost now = choose|now: u64| {
        &&& cache_map_contents(*main_map) == expire_key(old_contents, key@, now)
        &&& maybe_entry_view(maybe_old_value) == entry_at(cache_map_contents(*main_map), key@)
    };
    let ghost live = cache_map_contents(*main_map);
    match maybe_old_value {
        Some(mut old_value) => {
            match old_value.as_mut_list() {
                Ok(stored_list) => {
                    if index < 0 || index as usize >= stored_list.len() {
                        return Err("Index out of range".to_string());
                    }
                    let ghost before = stored_list@;
                    let removed_val = stored_list.remove(index as usize);
                    proof {
                        assert(list_view(stored_list@) =~= list_view(before).remove(index as int));
                    }
                    cache_map_insert(main_map, key, old_value);
                    proof {
                        assert(cache_map_contents(*main_map) =~= remove_at_outcome(live, key@, index).1);
                    }
                    Ok(removed_val)
                },
                Err(_) => Err("Error while parsing value to list: Not ListValue!".to_string()),
            }
        },
        None => Err("Key does not exist".to_string()),
    }
}

/// The view of a command's integer result, or of its error's text.
pub open spec fn int_result_view(r: Result<i32, String>) -> Result<i32, Seq<char>> {
    match r {
        Ok(n) => Ok(n),
        Err(e) => Err(e@),
    }
}

/// Holds of the elements that differ from `v`.
pub open spec fn differs_from(v: AtomicView) -> spec_fn(AtomicView) -> bool {
    |x: AtomicView| x != v
}

/// What removing every occurrence of `v` does to a map whose entry under `k` is alive
/// (or absent): the result is the number of elements removed.
pub open spec fn remove_all_outcome(m: Map<Option<Seq<char>>, EntryView>, k: Option<Seq<char>>, v: AtomicView) -> (Result<i32, Seq<char>>, Map<Option<Seq<char>>, EntryView>) {
    if !m.contains_key(k) {
        (Err("Key does not exist"@), m)
    } else {
        match held_list(m[k].value) {
            Some(l) => {
                let kept = l.filter(differs_from(v));
                (Ok((l.len() - kept.len()) as i32), with_list(m, k, kept))
            },
            None => (Err("Error while parsing value to list: Not ListValue!"@), m),
        }
    }
}

/// Filtering a sequence with one more element at its end.
proof fn lemma_filter_push(a: Seq<AtomicView>, x: AtomicView, p: spec_fn(AtomicView) -> bool)
    ensures
        a.push(x).filter(p) == (if p(x) { a.filter(p).push(x) } else { a.filter(p) }),
{
    reveal(Seq::filter);
    assert(a.push(x).drop_last() =~= a);
}

/// The elements of the list that differ from the value, in order.
fn without_value(stored_list: &Vec<StoredAtomicValue>, value: &StoredAtomicValue) -> (kept: Vec<StoredAtomicValue>)
    ensures
        list_view(kept@) == list_view(stored_list@).filter(differs_from(value@)),
{
    let ghost p = differs_from(value@);
    let mut kept: Vec<StoredAtomicValue> = Vec::new();
    let mut i: usize = 0;
    while i < stored_list.len()
        invariant
            i <= stored_list.len(),
            p == differs_from(value@),
            list_view(kept@) == list_view(stored_list@.subrange(0, i as int)).filter(p),
        decreases stored_list.len() - i,
    {
        let ghost pre = list_view(stored_list@.subrange(0, i as int));
        let ghost x = stored_list@[i as int]@;
        proof {
            assert(list_view(stored_list@.subrange(0, i + 1)) =~= pre.push(x));
            lemma_filter_push(pre, x, p);
            assert(p(x) == (x != value@));
        }
        if !atomic_equals(&stored_list[i], value) {
            kept.push(copy_atomic(&stored_list[i]));
            proof {
                assert(list_view(kept@) =~= pre.filter(p).push(x));
            }
        }
        i = i + 1;
    }
    proof {
        assert(stored_list@.subrange(0, stored_list.len() as int) =~= stored_list@);
    }
    kept
}

/// Removes every element equal to the value from the list stored under the key and
/// hands back how many were removed. A key that is absent or has expired gives "Key does
/// not exist"; a value that is not a list gives an error and is left as it was.
pub fn list_remove_by_value(main_map: &mut CacheFRMap, key: FrKey, value: AtomicFrValue) -> (r: Result<i32, String>)
    requires
        value.value is Some,
    ensures
        exists|now: u64| (int_result_view(r), cache_map_contents(*final(main_map)))
            == remove_all_outcome(expire_key(cache_map_contents(*old(main_map)), key@, now), key@, atomic_message_view(value).unwrap()),
{
    let ghost old_contents = cache_map_contents(*main_map);
    let maybe_old_value = get_from_map_as_mut(main_map, copy_key(&key));
    let ghost now = choose|now: u64| {
        &&& cache_map_contents(*main_map) == expire_key(old_contents, key@, now)
        &&& maybe_entry_view(maybe_old_value) == entry_at(cache_map_contents(*main_map), key@)
    };
    let ghost live = cache_map_contents(*main_map);
    match maybe_old_value {
        Some(mut old_value) => {
            match old_value.as_mut_list() {
                Ok(stored_list) => {
                    let value_to_remove = StoredAtomicValue::from_atomic_fr_value(value);
                    let kept = without_value(stored_list, &value_to_remove);
                    proof {
                        pre_filter_len(list_view(stored_list@), differs_from(value_to_remove@));
                    }
                    let removed_count = stored_list.len() - kept.len();
                    *stored_list = kept;
                    cache_map_insert(main_map, key, old_value);
                    proof {
                        assert(cache_map_contents(*main_map) =~= remove_all_outcome(live, key@, value_to_remove@).1);
                    }
                    Ok(removed_count as i32)
                },
                Err(_) => Err("Error while parsing value to list: Not ListValue!".to_string()),
            }
        },
        None => Err("Key does not exist".to_string()),
    }
}

/// Filtering keeps no more elements than there are.
proof fn pre_filter_len(l: Seq<AtomicView>, p: spec_fn(AtomicView) -> bool)
    ensures
        l.filter(p).len() <= l.len(),
{
    l.lemma_filter_len(p);
}

/// The index of the first element of `l` equal to `v` (meaningful where `l` holds `v`).
pub open spec fn first_index_of(l: Seq<AtomicView>, v: AtomicView) -> int {
    choose|i: int| 0 <= i < l.len() && l[i] == v && forall|j: int| 0 <= j < i ==> l[j] != v
}

/// What looking up the first occurrence of `v` does to a map whose entry under `k` is
/// alive (or absent): the map is left as it is; the result is the index as an integer,
/// or "Value does not exist".
pub open spec fn first_appearance_outcome(m: Map<Option<Seq<char>>, EntryView>, k: Option<Seq<char>>, v: AtomicView) -> (Result<AtomicView, Seq<char>>, Map<Option<Seq<char>>, EntryView>) {
    if !m.contains_key(k) {
        (Err("Key does not exist"@), m)
    } else {
        match held_list(m[k].value) {
            Some(l) => if l.contains(v) {
                (Ok(AtomicView::Int(first_index_of(l, v) as i32)), m)
            } else {
                (Err("Value does not exist"@), m)
            },
            None => (Err("Error while parsing value to list: Not ListValue!"@), m),
        }
    }
}

/// The index of the first element of the list equal to the value, if there is one.
fn position_of(stored_list: &Vec<StoredAtomicValue>, value: &StoredAtomicValue) -> (r: Option<usize>)
    ensures
        match r {
            Some(i) => list_view(stored_list@).contains(value@) && i == first_index_of(list_view(stored_list@), value@),
            None => !list_view(stored_list@).contains(value@),
        },
{
    let ghost l = list_view(stored_list@);
    let mut i: usize = 0;
    while i < stored_list.len()
        invariant
            i <= stored_list.len(),
            l == list_view(stored_list@),
            forall|j: int| 0 <= j < i ==> l[j] != value@,
        decreases stored_list.len() - i,
    {
        if atomic_equals(&stored_list[i], value) {
            proof {
                assert(l[i as int] == value@);
                assert(l.contains(value@));
                let c = first_index_of(l, value@);
                assert(0 <= c < l.len() && l[c] == value@ && forall|j: int| 0 <= j < c ==> l[j] != value@);
                if c < i {
                    assert(l[c] != value@);
                } else if c > i {
                    assert(l[i as int] != value@);
                }
            }
            return Some(i);
        }
        i = i + 1;
    }
    proof {
        if l.contains(value@) {
            let j = choose|j: int| 0 <= j < l.len() && l[j] == value@;
            assert(l[j] != value@);
        }
    }
    None
}

/// Hands back the index of the first element of the key's list that equals the value.
/// A list without the value gives "Value does not exist"; a key that is absent or has
/// expired gives "Key does not exist"; a value that is not a list gives an error.
pub fn list_first_appearance(main_map: &mut CacheFRMap, key: FrKey, value: AtomicFrValue) -> (r: Result<StoredAtomicValue, String>)
    requires
        value.value is Some,
    ensures
        exists|now: u64| (atomic_result_view(r), cache_map_contents(*final(main_map)))
            == first_appearance_outcome(expire_key(cache_map_contents(*old(main_map)), key@, now), key@, atomic_message_view(value).unwrap()),
{
    let ghost old_contents = cache_map_contents(*main_map);
    let maybe_old_value = get_from_map_as_mut(main_map, copy_key(&key));
    let ghost now = choose|now: u64| {
        &&& cache_map_contents(*main_map) == expire_key(old_contents, key@, now)
        &&& maybe_entry_view(maybe_old_value) == entry_at(cache_map_contents(*main_map), key@)
    };
    match maybe_old_value {
        Some(old_value) => {
            match old_value.as_list() {
                Ok(stored_list) => {
                    let searched = StoredAtomicValue::from_atomic_fr_value(value);
                    match position_of(stored_list, &searched) {
                        Some(i) => Ok(StoredAtomicValue::IntValue(i as i32)),
                        None => Err("Value does not exist".to_string()),
                    }
                },
                Err(_) => Err("Error while parsing value to list: Not ListValue!".to_string()),
            }
        },
        None => Err("Key does not exist".to_string()),
    }
}

} // verus!
