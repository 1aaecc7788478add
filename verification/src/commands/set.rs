//! Storing a value under a key.
use vstd::prelude::*;
use crate::commands_proto::{FrKey, FrValue};
use crate::dash_collections::{cache_map_contains_key, cache_map_contents, cache_map_insert};
use crate::value_structs::{
    entry_of_message, fr_value_is_storable, CacheFRMap, EntryView, StoredFrValueWithExpiry,
};

verus! {

/// What storing `v` under `k` does: with `only_if_not_exists`, a key the map holds
/// (expired or not) is refused with "Key already exists" and the map is left as it is;
/// otherwise the entry the message describes replaces whatever the key held.
pub open spec fn set_outcome(m: Map<Option<Seq<char>>, EntryView>, k: Option<Seq<char>>, v: FrValue, only_if_not_exists: bool) -> (Result<FrValue, Seq<char>>, Map<Option<Seq<char>>, EntryView>) {
    if only_if_not_exists && m.contains_key(k) {
        (Err("Key already exists"@), m)
    } else {
        (Ok(v), m.insert(k, entry_of_message(v)))
    }
}

/// The view of the result of storing a message.
pub open spec fn set_result_view(r: Result<FrValue, String>) -> Result<FrValue, Seq<char>> {
    match r {
        Ok(v) => Ok(v),
        Err(e) => Err(e@),
    }
}

/// Stores the value under the key and hands the message back; with
/// `only_if_not_exists`, a key already in the map is refused with "Key already exists".
pub fn set_value_in_map(main_map: &mut CacheFRMap, key: FrKey, value: FrValue, only_if_not_exists: bool) -> (r: Result<FrValue, String>)
    requires
        fr_value_is_storable(value),
    ensures
        (set_result_view(r), cache_map_contents(*final(main_map)))
            == set_outcome(cache_map_contents(*old(main_map)), key@, value, only_if_not_exists),
{
    if only_if_not_exists && cache_map_contains_key(main_map, &key) {
        return Err("Key already exists".to_string());
    }
    let stored = StoredFrValueWithExpiry::from_fr_value_ref(&value);
    cache_map_insert(main_map, key, stored);
    Ok(value)
}

} // verus!
