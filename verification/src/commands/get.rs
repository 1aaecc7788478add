//! Reading an entry, which first drops it when it has expired.
use vstd::prelude::*;
use std::time::{Duration, SystemTime, SystemTimeError};
use crate::commands_proto::{fr_key, FrKey};
use crate::consts::NO_EXPIRY;
use crate::dash_collections::{cache_map_contents, cache_map_get, cache_map_remove};
use crate::value_structs::{CacheFRMap, EntryView, StoredFrValueWithExpiry};

verus! {

#[verifier::external_type_specification]
#[verifier::external_body]
pub struct ExSystemTime(SystemTime);

#[verifier::external_type_specification]
#[verifier::external_body]
pub struct ExSystemTimeError(SystemTimeError);

/// `SystemTime::now`: the system clock's reading. Nothing is stated of it: it is
/// whatever the clock says when the call is made.
#[verifier::external_body]
fn system_time_now() -> SystemTime {
    SystemTime::now()
}

/// `SystemTime::duration_since`, from the Unix epoch. Not stated: which duration, or
/// whether it is an error (the clock set before the epoch); the caller uses it as an
/// arbitrary reading of the clock.
#[verifier::external_body]
fn elapsed_since_unix_epoch(t: &SystemTime) -> Result<Duration, SystemTimeError> {
    t.duration_since(std::time::UNIX_EPOCH)
}

/// `Duration::as_micros`. Not stated: the number, which the caller takes as an
/// arbitrary reading of the clock.
#[verifier::external_body]
fn duration_as_micros(d: &Duration) -> u128 {
    d.as_micros()
}

/// The current time in microseconds since the Unix epoch (truncated to 64 bits); a
/// clock set before the epoch reads as the epoch.
pub fn current_time_micros() -> u64 {
    let t = system_time_now();
    match elapsed_since_unix_epoch(&t) {
        Ok(d) => {
            let micros = duration_as_micros(&d);
            micros as u64
        },
        Err(_) => 0,
    }
}

/// An entry is alive at `now` when it never expires or expires after `now`.
pub open spec fn is_alive(e: EntryView, now: u64) -> bool {
    e.expiry_timestamp_micros == NO_EXPIRY || e.expiry_timestamp_micros > now
}

/// The map once the key's entry has been dropped, if it had expired by `now`.
pub open spec fn expire_key(m: Map<Option<Seq<char>>, EntryView>, k: Option<Seq<char>>, now: u64) -> Map<Option<Seq<char>>, EntryView> {
    if m.contains_key(k) && !is_alive(m[k], now) {
        m.remove(k)
    } else {
        m
    }
}

/// The entry a map holds under a key, if any.
pub open spec fn entry_at(m: Map<Option<Seq<char>>, EntryView>, k: Option<Seq<char>>) -> Option<EntryView> {
    if m.contains_key(k) {
        Some(m[k])
    } else {
        None
    }
}

/// The view of an entry that may be absent.
pub open spec fn maybe_entry_view(r: Option<StoredFrValueWithExpiry>) -> Option<EntryView> {
    match r {
        Some(v) => Some(v@),
        None => None,
    }
}

/// A copy of a key.
pub(crate) fn copy_key(k: &FrKey) -> (r: FrKey)
    ensures
        r == *k,
{
    match &k.key {
        Some(fr_key::Key::StringKey(s)) => FrKey { key: Some(fr_key::Key::StringKey(s.clone())) },
        None => FrKey { key: None },
    }
}

/// Reads the key's entry as the clock reads `now`: an entry that has expired is
/// removed and reads as absent; any other entry is handed back unchanged.
pub fn get_from_map_at(main_map: &mut CacheFRMap, key: FrKey, now: u64) -> (r: Option<StoredFrValueWithExpiry>)
    ensures
        cache_map_contents(*final(main_map)) == expire_key(cache_map_contents(*old(main_map)), key@, now),
        maybe_entry_view(r) == entry_at(cache_map_contents(*final(main_map)), key@),
{
    let result = cache_map_get(main_map, &key);
    match result {
        Some(map_value) => {
            if map_value.expiry_timestamp_micros == NO_EXPIRY
                || map_value.expiry_timestamp_micros > now {
                Some(map_value)
            } else {
                cache_map_remove(main_map, &key);
                proof {
                    assert(!cache_map_contents(*main_map).contains_key(key@));
                }
                None
            }
        },
        None => None,
    }
}

/// Reads the key's entry at the current time: an entry that has expired is removed
/// and reads as absent.
pub fn get_from_map(main_map: &mut CacheFRMap, key: FrKey) -> (r: Option<StoredFrValueWithExpiry>)
    ensures
        exists|now: u64| {
            &&& cache_map_contents(*final(main_map)) == expire_key(cache_map_contents(*old(main_map)), key@, now)
            &&& maybe_entry_view(r) == entry_at(cache_map_contents(*final(main_map)), key@)
        },
{
    let now = current_time_micros();
    get_from_map_at(main_map, key, now)
}

/// Reads the key's entry at the current time, for a caller that will change it and
/// store it back: an entry that has expired is removed and reads as absent.
pub fn get_from_map_as_mut(main_map: &mut CacheFRMap, key: FrKey) -> (r: Option<StoredFrValueWithExpiry>)
    ensures
        exists|now: u64| {
            &&& cache_map_contents(*final(main_map)) == expire_key(cache_map_contents(*old(main_map)), key@, now)
            &&& maybe_entry_view(r) == entry_at(cache_map_contents(*final(main_map)), key@)
        },
{
    let now = current_time_micros();
    get_from_map_at(main_map, key, now)
}

} // verus!
