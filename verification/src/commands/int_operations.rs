//! Commands on integer values.
use vstd::prelude::*;
use crate::commands::get::{copy_key, expire_key, get_from_map_as_mut, maybe_entry_view, entry_at};
use crate::commands_proto::FrKey;
use crate::dash_collections::{cache_map_contents, cache_map_get, cache_map_insert};
use crate::value_structs::{
    held_int, AtomicView, CacheFRMap, EntryView, StoredAtomicValue, StoredView,
};

verus! {

/// The view of a command's result: the atomic value, or the error's text.
pub open spec fn atomic_result_view(r: Result<StoredAtomicValue, String>) -> Result<AtomicView, Seq<char>> {
    match r {
        Ok(v) => Ok(v@),
        Err(e) => Err(e@),
    }
}

/// Adding `amount` to the key's integer stays within `i32`, whatever the key holds.
pub open spec fn increment_fits(m: Map<Option<Seq<char>>, EntryView>, k: Option<Seq<char>>, amount: i32) -> bool {
    m.contains_key(k) && held_int(m[k].value) is Some ==> i32::MIN <= held_int(m[k].value).unwrap() + amount <= i32::MAX
}

/// What incrementing does to a map whose entry under `k` is alive (or absent): the
/// result, and the map after.
pub open spec fn increment_outcome(m: Map<Option<Seq<char>>, EntryView>, k: Option<Seq<char>>, amount: i32) -> (Result<AtomicView, Seq<char>>, Map<Option<Seq<char>>, EntryView>) {
    if !m.contains_key(k) {
        (Err("Key does not exist"@), m)
    } else {
        match held_int(m[k].value) {
            Some(i) => {
                let n = (i + amount) as i32;
                (Ok(AtomicView::Int(n)), m.insert(k, EntryView { value: StoredView::AtomicVal(AtomicView::Int(n)), ..m[k] }))
            },
            None => (Err("Error while parsing value to int: Not IntValue!"@), m),
        }
    }
}

/// Adds `amount` to the integer stored under the key and hands back the new value.
/// A key that is absent or has expired gives "Key does not exist"; a value that is not
/// an integer gives an error and is left as it was.
pub fn int_increment(main_map: &mut CacheFRMap, key: FrKey, amount: i32) -> (r: Result<StoredAtomicValue, String>)
    requires
        increment_fits(cache_map_contents(*old(main_map)), key@, amount),
    ensures
        exists|now: u64| (atomic_result_view(r), cache_map_contents(*final(main_map)))
            == increment_outcome(expire_key(cache_map_contents(*old(main_map)), key@, now), key@, amount),
{
    let ghost old_contents = cache_map_contents(*main_map);
    let maybe_old_value = get_from_map_as_mut(main_map, copy_key(&key));
    let ghost now = choose|now: u64| {
        &&& cache_map_contents(*main_map) == expire_key(old_contents, key@, now)
        &&& maybe_entry_view(maybe_old_value) == entry_at(cache_map_contents(*main_map), key@)
    };
    let ghost live = cache_map_contents(*main_map);
    match maybe_old_value {
        Some(mut old_value) => {
            match old_value.as_mut_int() {
                Ok(stored_int) => {
                    *stored_int = *stored_int + amount;
                    let new_value = *stored_int;
                    cache_map_insert(main_map, key, old_value);
                    proof {
                        assert(cache_map_contents(*main_map) =~= increment_outcome(live, key@, amount).1);
                    }
                    Ok(StoredAtomicValue::IntValue(new_value))
                },
                Err(_) => Err("Error while parsing value to int: Not IntValue!".to_string()),
            }
        },
        None => Err("Key does not exist".to_string()),
    }
}

/// Whether adding `amount` to the key's integer stays within `i32` (true when the key
/// does not hold an integer): the condition under which `int_increment` may be called.
pub fn int_increment_fits(main_map: &CacheFRMap, key: &FrKey, amount: i32) -> (r: bool)
    ensures
        r == increment_fits(cache_map_contents(*main_map), key@, amount),
{
    match cache_map_get(main_map, key) {
        Some(entry) => match entry.as_int() {
            Ok(i) => {
                let sum: i64 = *i as i64 + amount as i64;
                i32::MIN as i64 <= sum && sum <= i32::MAX as i64
            },
            Err(_) => true,
        },
        None => true,
    }
}

} // verus!
