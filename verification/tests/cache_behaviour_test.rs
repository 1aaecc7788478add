use cache_fr::commands::get::{current_time_micros, get_from_map_at};
use cache_fr::commands::int_operations::{int_increment, int_increment_fits};
use cache_fr::commands::list_operations::{
    list_append, list_first_appearance, list_remove, list_remove_by_index, list_remove_by_value,
};
use cache_fr::commands::set::set_value_in_map;
use cache_fr::commands::set_operations::{set_add, set_contains, set_remove};
use cache_fr::commands_proto::{
    self, atomic_fr_value, fr_value, int_command, list_command, set_commnad, AtomicFrValue, FrKey,
    FrValue, IntCommand, ListCommand, ListValue, SetCommnad, SetRequest, SetValue,
};
use cache_fr::consts::NO_EXPIRY;
use cache_fr::example_client::TonicConnectionManager;
use cache_fr::main_map_impl::{CacheFRMapImpl, Code};
use cache_fr::value_structs::{
    is_storable, StoredAtomicValue, StoredFrValue, StoredFrValueWithExpiry, WrappedDashSet,
};
use dashmap::DashSet;

fn key(s: &str) -> FrKey {
    FrKey { key: Some(commands_proto::fr_key::Key::StringKey(s.to_string())) }
}

fn int_msg(i: i32) -> AtomicFrValue {
    AtomicFrValue { value: Some(atomic_fr_value::Value::IntValue(i)) }
}

fn str_msg(s: &str) -> AtomicFrValue {
    AtomicFrValue { value: Some(atomic_fr_value::Value::StringValue(s.to_string())) }
}

fn bool_msg(b: bool) -> AtomicFrValue {
    AtomicFrValue { value: Some(atomic_fr_value::Value::BoolValue(b)) }
}

fn int_value(i: i32, expiry: u64) -> FrValue {
    FrValue { value: Some(fr_value::Value::AtomicValue(int_msg(i))), expiry_timestamp_micros: expiry }
}

fn list_value(items: Vec<AtomicFrValue>) -> FrValue {
    FrValue { value: Some(fr_value::Value::ListValue(ListValue { values: items })), expiry_timestamp_micros: NO_EXPIRY }
}

fn set_value(items: Vec<AtomicFrValue>) -> FrValue {
    FrValue { value: Some(fr_value::Value::SetValue(SetValue { values: items })), expiry_timestamp_micros: NO_EXPIRY }
}

fn store(cache: &mut CacheFRMapImpl, k: &str, v: FrValue) {
    let r = cache.set(SetRequest { key: Some(key(k)), value: Some(v), only_if_not_exists: false, return_value: false });
    assert!(r.is_ok());
}

fn list_of(cache: &mut CacheFRMapImpl, k: &str) -> Vec<StoredAtomicValue> {
    let v = cache.get(key(k)).unwrap().value.unwrap();
    StoredFrValueWithExpiry::from_fr_value(v).as_list().unwrap().clone()
}

#[test]
fn get_after_set_returns_the_value() {
    let mut cache = CacheFRMapImpl::new();
    let v = FrValue {
        value: Some(fr_value::Value::AtomicValue(str_msg("hello"))),
        expiry_timestamp_micros: NO_EXPIRY,
    };
    let r = cache.set(SetRequest { key: Some(key("k")), value: Some(v.clone()), only_if_not_exists: false, return_value: true });
    assert_eq!(r.unwrap().value, Some(v.clone()));
    assert_eq!(cache.get(key("k")).unwrap().value, Some(v));
    assert_eq!(cache.len(), 1);
}

#[test]
fn set_without_return_value_answers_nothing() {
    let mut cache = CacheFRMapImpl::new();
    let r = cache.set(SetRequest { key: Some(key("k")), value: Some(int_value(1, NO_EXPIRY)), only_if_not_exists: false, return_value: false });
    assert_eq!(r.unwrap().value, None);
}

#[test]
fn set_only_if_absent_is_refused_on_an_existing_key() {
    let mut cache = CacheFRMapImpl::new();
    store(&mut cache, "k", int_value(1, NO_EXPIRY));
    let err = cache
        .set(SetRequest { key: Some(key("k")), value: Some(int_value(2, NO_EXPIRY)), only_if_not_exists: true, return_value: false })
        .unwrap_err();
    assert_eq!(err.code, Code::AlreadyExists);
    assert_eq!(err.message, "Key already exists");
    assert_eq!(cache.get(key("k")).unwrap().value, Some(int_value(1, NO_EXPIRY)));
    // on an absent key it stores
    assert!(cache
        .set(SetRequest { key: Some(key("other")), value: Some(int_value(3, NO_EXPIRY)), only_if_not_exists: true, return_value: false })
        .is_ok());
    assert_eq!(cache.get(key("other")).unwrap().value, Some(int_value(3, NO_EXPIRY)));
}

#[test]
fn set_overwrites_and_leaves_other_keys() {
    let mut cache = CacheFRMapImpl::new();
    store(&mut cache, "a", int_value(1, NO_EXPIRY));
    store(&mut cache, "b", int_value(2, NO_EXPIRY));
    store(&mut cache, "a", int_value(5, NO_EXPIRY));
    assert_eq!(cache.get(key("a")).unwrap().value, Some(int_value(5, NO_EXPIRY)));
    assert_eq!(cache.get(key("b")).unwrap().value, Some(int_value(2, NO_EXPIRY)));
    assert_eq!(cache.len(), 2);
}

#[test]
fn set_with_missing_parts_is_refused() {
    let mut cache = CacheFRMapImpl::new();
    let err = cache.set(SetRequest { key: None, value: Some(int_value(1, NO_EXPIRY)), only_if_not_exists: false, return_value: false }).unwrap_err();
    assert_eq!(err.code, Code::InvalidArgument);
    assert_eq!(err.message, "key is required");
    let err = cache.set(SetRequest { key: Some(key("k")), value: None, only_if_not_exists: false, return_value: false }).unwrap_err();
    assert_eq!(err.code, Code::InvalidArgument);
    assert_eq!(err.message, "value is required");
    assert_eq!(cache.len(), 0);
}

#[test]
fn get_of_missing_key_is_not_found() {
    let mut cache = CacheFRMapImpl::new();
    let err = cache.get(key("nothing")).unwrap_err();
    assert_eq!(err.code, Code::NotFound);
    assert_eq!(err.message, "Key not found");
}

#[test]
fn expired_entry_reads_absent_and_is_removed() {
    let mut cache = CacheFRMapImpl::new();
    store(&mut cache, "old", int_value(7, 1));
    store(&mut cache, "kept", int_value(8, NO_EXPIRY));
    assert_eq!(cache.len(), 2);
    assert_eq!(cache.get(key("old")).unwrap_err().code, Code::NotFound);
    assert_eq!(cache.len(), 1);
    assert_eq!(cache.get(key("kept")).unwrap().value, Some(int_value(8, NO_EXPIRY)));
}

#[test]
fn entry_is_alive_until_its_expiry() {
    let mut cache = CacheFRMapImpl::new();
    store(&mut cache, "k", int_value(7, 1000));
    let before = get_from_map_at(&mut cache.map, key("k"), 999);
    assert_eq!(before.unwrap().as_int().copied(), Ok(7));
    assert_eq!(cache.len(), 1);
    let at = get_from_map_at(&mut cache.map, key("k"), 1000);
    assert!(at.is_none());
    assert_eq!(cache.len(), 0);
}

#[test]
fn entry_without_expiry_never_expires() {
    let mut cache = CacheFRMapImpl::new();
    store(&mut cache, "k", int_value(7, NO_EXPIRY));
    assert!(get_from_map_at(&mut cache.map, key("k"), u64::MAX).is_some());
    assert_eq!(cache.len(), 1);
}

#[test]
fn clock_reads_after_the_epoch() {
    // 2020-01-01 in microseconds
    assert!(current_time_micros() > 1_577_836_800_000_000);
}

#[test]
fn increments_accumulate() {
    let mut cache = CacheFRMapImpl::new();
    store(&mut cache, "n", int_value(10, NO_EXPIRY));
    let r = int_increment(&mut cache.map, key("n"), 5).unwrap();
    assert_eq!(r, StoredAtomicValue::IntValue(15));
    let r = int_increment(&mut cache.map, key("n"), -20).unwrap();
    assert_eq!(r, StoredAtomicValue::IntValue(-5));
    assert_eq!(cache.get(key("n")).unwrap().value, Some(int_value(-5, NO_EXPIRY)));
}

#[test]
fn increment_keeps_the_expiry() {
    let mut cache = CacheFRMapImpl::new();
    let far = u64::MAX - 1;
    store(&mut cache, "n", int_value(1, far));
    let _ = int_increment(&mut cache.map, key("n"), 1);
    assert_eq!(cache.get(key("n")).unwrap().value, Some(int_value(2, far)));
}

#[test]
fn increment_errors() {
    let mut cache = CacheFRMapImpl::new();
    assert_eq!(int_increment(&mut cache.map, key("none"), 1), Err("Key does not exist".to_string()));
    store(&mut cache, "s", FrValue { value: Some(fr_value::Value::AtomicValue(str_msg("x"))), expiry_timestamp_micros: NO_EXPIRY });
    assert_eq!(
        int_increment(&mut cache.map, key("s"), 1),
        Err("Error while parsing value to int: Not IntValue!".to_string())
    );
}

#[test]
fn increment_fits_detects_overflow() {
    let mut cache = CacheFRMapImpl::new();
    store(&mut cache, "n", int_value(i32::MAX - 1, NO_EXPIRY));
    assert!(int_increment_fits(&cache.map, &key("n"), 1));
    assert!(!int_increment_fits(&cache.map, &key("n"), 2));
    assert!(int_increment_fits(&cache.map, &key("missing"), i32::MAX));
}

#[test]
fn int_operation_answers() {
    let mut cache = CacheFRMapImpl::new();
    store(&mut cache, "n", int_value(3, NO_EXPIRY));
    let r = cache.int_operation(IntCommand { key: Some(key("n")), command: Some(int_command::Command::IncrementBy(4)) });
    assert_eq!(r.unwrap().value, Some(int_msg(7)));
    let err = cache.int_operation(IntCommand { key: Some(key("n")), command: None }).unwrap_err();
    assert_eq!((err.code, err.message.as_str()), (Code::Unimplemented, "Not implemented"));
    let err = cache.int_operation(IntCommand { key: None, command: Some(int_command::Command::IncrementBy(1)) }).unwrap_err();
    assert_eq!((err.code, err.message.as_str()), (Code::InvalidArgument, "key is required"));
    let err = cache.int_operation(IntCommand { key: Some(key("absent")), command: Some(int_command::Command::IncrementBy(1)) }).unwrap_err();
    assert_eq!((err.code, err.message.as_str()), (Code::Aborted, "Key does not exist"));
}

#[test]
fn list_append_and_remove() {
    let mut cache = CacheFRMapImpl::new();
    store(&mut cache, "l", list_value(vec![int_msg(1), int_msg(2)]));
    assert_eq!(list_append(&mut cache.map, key("l"), str_msg("x")), Ok(StoredAtomicValue::StringValue("x".to_string())));
    assert_eq!(
        list_of(&mut cache, "l"),
        vec![StoredAtomicValue::IntValue(1), StoredAtomicValue::IntValue(2), StoredAtomicValue::StringValue("x".to_string())]
    );
    assert_eq!(list_remove(&mut cache.map, key("l"), 0), Ok(StoredAtomicValue::IntValue(1)));
    assert_eq!(list_of(&mut cache, "l"), vec![StoredAtomicValue::IntValue(2), StoredAtomicValue::StringValue("x".to_string())]);
}

#[test]
fn removing_the_appended_element_restores_the_list() {
    let mut cache = CacheFRMapImpl::new();
    store(&mut cache, "l", list_value(vec![int_msg(4)]));
    let _ = list_append(&mut cache.map, key("l"), int_msg(9));
    assert_eq!(list_remove_by_index(&mut cache.map, key("l"), 1), Ok(StoredAtomicValue::IntValue(9)));
    assert_eq!(cache.get(key("l")).unwrap().value, Some(list_value(vec![int_msg(4)])));
}

#[test]
fn list_remove_by_index_out_of_range() {
    let mut cache = CacheFRMapImpl::new();
    store(&mut cache, "l", list_value(vec![int_msg(1)]));
    assert_eq!(list_remove_by_index(&mut cache.map, key("l"), 1), Err("Index out of range".to_string()));
    assert_eq!(list_remove_by_index(&mut cache.map, key("l"), -1), Err("Index out of range".to_string()));
    assert_eq!(list_of(&mut cache, "l"), vec![StoredAtomicValue::IntValue(1)]);
}

#[test]
fn list_remove_by_value_counts() {
    let mut cache = CacheFRMapImpl::new();
    store(&mut cache, "l", list_value(vec![int_msg(1), int_msg(2), int_msg(1), str_msg("1")]));
    assert_eq!(list_remove_by_value(&mut cache.map, key("l"), int_msg(1)), Ok(2));
    assert_eq!(list_of(&mut cache, "l"), vec![StoredAtomicValue::IntValue(2), StoredAtomicValue::StringValue("1".to_string())]);
    assert_eq!(list_remove_by_value(&mut cache.map, key("l"), int_msg(1)), Ok(0));
}

#[test]
fn list_first_appearance_finds_the_first() {
    let mut cache = CacheFRMapImpl::new();
    store(&mut cache, "l", list_value(vec![int_msg(5), int_msg(6), int_msg(6)]));
    assert_eq!(list_first_appearance(&mut cache.map, key("l"), int_msg(6)), Ok(StoredAtomicValue::IntValue(1)));
    assert_eq!(list_first_appearance(&mut cache.map, key("l"), int_msg(7)), Err("Value does not exist".to_string()));
}

#[test]
fn list_commands_on_wrong_kind_or_missing_key() {
    let mut cache = CacheFRMapImpl::new();
    store(&mut cache, "n", int_value(1, NO_EXPIRY));
    let not_list = Err("Error while parsing value to list: Not ListValue!".to_string());
    assert_eq!(list_append(&mut cache.map, key("n"), int_msg(1)), not_list);
    assert_eq!(list_remove_by_index(&mut cache.map, key("n"), 0), not_list);
    assert_eq!(list_first_appearance(&mut cache.map, key("n"), int_msg(1)), not_list);
    assert_eq!(list_remove_by_value(&mut cache.map, key("n"), int_msg(1)), Err("Error while parsing value to list: Not ListValue!".to_string()));
    assert_eq!(list_append(&mut cache.map, key("none"), int_msg(1)), Err("Key does not exist".to_string()));
    assert_eq!(cache.get(key("n")).unwrap().value, Some(int_value(1, NO_EXPIRY)));
}

#[test]
fn list_operation_answers() {
    let mut cache = CacheFRMapImpl::new();
    store(&mut cache, "l", list_value(vec![int_msg(1), int_msg(1)]));
    let r = cache.list_operation(ListCommand { key: Some(key("l")), command: Some(list_command::Command::Append(int_msg(2))) });
    assert_eq!(r.unwrap().value, Some(int_msg(2)));
    let r = cache.list_operation(ListCommand { key: Some(key("l")), command: Some(list_command::Command::RemoveAll(int_msg(1))) });
    assert_eq!(r.unwrap().value, Some(int_msg(2)));
    let r = cache.list_operation(ListCommand { key: Some(key("l")), command: Some(list_command::Command::FirstAppearance(int_msg(2))) });
    assert_eq!(r.unwrap().value, Some(int_msg(0)));
    let r = cache.list_operation(ListCommand { key: Some(key("l")), command: Some(list_command::Command::RemoveAt(0)) });
    assert_eq!(r.unwrap().value, Some(int_msg(2)));
    let err = cache.list_operation(ListCommand { key: Some(key("l")), command: Some(list_command::Command::RemoveAt(0)) }).unwrap_err();
    assert_eq!((err.code, err.message.as_str()), (Code::Aborted, "Index out of range"));
    let err = cache.list_operation(ListCommand { key: Some(key("l")), command: None }).unwrap_err();
    assert_eq!(err.code, Code::Unimplemented);
    let err = cache.list_operation(ListCommand { key: None, command: None }).unwrap_err();
    assert_eq!(err.code, Code::InvalidArgument);
}

#[test]
fn set_add_contains_remove() {
    let mut cache = CacheFRMapImpl::new();
    store(&mut cache, "s", set_value(vec![]));
    assert_eq!(set_contains(&mut cache.map, key("s"), int_msg(1)), Ok(false));
    assert_eq!(set_add(&mut cache.map, key("s"), int_msg(1)), Ok(StoredAtomicValue::IntValue(1)));
    assert_eq!(set_add(&mut cache.map, key("s"), int_msg(1)), Ok(StoredAtomicValue::IntValue(1)));
    assert_eq!(set_contains(&mut cache.map, key("s"), int_msg(1)), Ok(true));
    assert_eq!(set_remove(&mut cache.map, key("s"), int_msg(1)), Ok(StoredAtomicValue::IntValue(1)));
    assert_eq!(set_contains(&mut cache.map, key("s"), int_msg(1)), Ok(false));
    assert_eq!(set_remove(&mut cache.map, key("s"), int_msg(1)), Err("Value does not exist".to_string()));
    assert_eq!(cache.get(key("s")).unwrap().value, Some(set_value(vec![])));
}

#[test]
fn set_commands_on_wrong_kind_or_missing_key() {
    let mut cache = CacheFRMapImpl::new();
    store(&mut cache, "l", list_value(vec![]));
    assert_eq!(set_add(&mut cache.map, key("l"), int_msg(1)), Err("Error while parsing value to mut set: Not SetValue!".to_string()));
    assert_eq!(set_remove(&mut cache.map, key("l"), int_msg(1)), Err("Error while parsing value to mut set: Not SetValue!".to_string()));
    assert_eq!(set_contains(&mut cache.map, key("l"), int_msg(1)), Err("Error while parsing value to set: Not SetValue!".to_string()));
    assert_eq!(set_add(&mut cache.map, key("none"), int_msg(1)), Err("Key does not exist".to_string()));
}

#[test]
fn set_operation_answers() {
    let mut cache = CacheFRMapImpl::new();
    store(&mut cache, "s", set_value(vec![str_msg("a")]));
    let r = cache.set_operation(SetCommnad { key: Some(key("s")), command: Some(set_commnad::Command::Contains(str_msg("a"))) });
    assert_eq!(r.unwrap().value, Some(bool_msg(true)));
    let r = cache.set_operation(SetCommnad { key: Some(key("s")), command: Some(set_commnad::Command::Remove(str_msg("a"))) });
    assert_eq!(r.unwrap().value, Some(str_msg("a")));
    let err = cache.set_operation(SetCommnad { key: Some(key("s")), command: Some(set_commnad::Command::Remove(str_msg("a"))) }).unwrap_err();
    assert_eq!((err.code, err.message.as_str()), (Code::Aborted, "Value does not exist"));
    let r = cache.set_operation(SetCommnad { key: Some(key("s")), command: Some(set_commnad::Command::Add(bool_msg(false))) });
    assert_eq!(r.unwrap().value, Some(bool_msg(false)));
}

#[test]
fn set_value_in_map_results() {
    let mut map = CacheFRMapImpl::new().map;
    assert_eq!(set_value_in_map(&mut map, key("k"), int_value(1, NO_EXPIRY), true), Ok(int_value(1, NO_EXPIRY)));
    assert_eq!(set_value_in_map(&mut map, key("k"), int_value(2, NO_EXPIRY), true), Err("Key already exists".to_string()));
    assert_eq!(set_value_in_map(&mut map, key("k"), int_value(2, NO_EXPIRY), false), Ok(int_value(2, NO_EXPIRY)));
}

#[test]
fn set_message_keeps_each_element_once() {
    let stored = StoredFrValueWithExpiry::from_fr_value(set_value(vec![int_msg(1), int_msg(1), int_msg(2)]));
    assert_eq!(stored.as_set().unwrap().len(), 2);
    let back = stored.to_fr_value();
    match back.value {
        Some(fr_value::Value::SetValue(sv)) => {
            let mut got: Vec<i32> = sv
                .values
                .iter()
                .map(|a| match a.value {
                    Some(atomic_fr_value::Value::IntValue(i)) => i,
                    _ => panic!("not an integer"),
                })
                .collect();
            got.sort();
            assert_eq!(got, vec![1, 2]);
        }
        _ => panic!("not a set"),
    }
}

#[test]
fn messages_round_trip() {
    for v in [
        list_value(vec![int_msg(3), str_msg("a"), bool_msg(true)]),
        int_value(-4, 77),
        FrValue { value: Some(fr_value::Value::AtomicValue(str_msg("s"))), expiry_timestamp_micros: 5 },
    ] {
        assert_eq!(StoredFrValueWithExpiry::from_fr_value(v.clone()).to_fr_value(), v);
    }
}

#[test]
fn atomic_round_trip() {
    for a in [StoredAtomicValue::IntValue(9), StoredAtomicValue::StringValue("z".to_string()), StoredAtomicValue::BoolValue(true)] {
        assert_eq!(StoredAtomicValue::from_atomic_fr_value(a.to_atomic_fr_value()), a);
    }
    assert_eq!(StoredAtomicValue::IntValue(9).to_atomic_fr_value(), int_msg(9));
}

#[test]
fn storable_messages() {
    assert!(is_storable(&int_value(1, NO_EXPIRY)));
    assert!(!is_storable(&FrValue { value: Some(fr_value::Value::AtomicValue(bool_msg(true))), expiry_timestamp_micros: 0 }));
    assert!(!is_storable(&FrValue { value: None, expiry_timestamp_micros: 0 }));
    assert!(!is_storable(&list_value(vec![int_msg(1), AtomicFrValue { value: None }])));
    assert!(is_storable(&set_value(vec![bool_msg(false)])));
}

#[test]
fn accessors_tell_the_kind() {
    let mut e = StoredFrValueWithExpiry::from_fr_value(int_value(5, 0));
    assert_eq!(e.as_int(), Ok(&5));
    assert_eq!(e.as_string(), Err("Not IntValue!"));
    assert_eq!(e.as_bool(), Err("Not IntValue!"));
    assert!(matches!(e.as_set(), Err("Not SetValue!")));
    assert_eq!(e.as_list(), Err("Not ListValue!"));
    *e.as_mut_int().unwrap() += 1;
    assert_eq!(e.as_int(), Ok(&6));
    let mut l = StoredFrValueWithExpiry::from_fr_value(list_value(vec![]));
    l.as_mut_list().unwrap().push(StoredAtomicValue::BoolValue(true));
    assert_eq!(l.as_list().unwrap().len(), 1);
    assert!(l.as_mut_int().is_err());
    let mut s = StoredFrValueWithExpiry::from_fr_value(set_value(vec![]));
    s.as_mut_set().unwrap().insert(StoredAtomicValue::IntValue(1));
    assert_eq!(s.as_set().unwrap().len(), 1);
    let b = StoredFrValueWithExpiry { value: StoredFrValue::AtomicValue(StoredAtomicValue::BoolValue(true)), expiry_timestamp_micros: 0 };
    assert_eq!(b.as_bool(), Ok(true));
    let st = StoredFrValueWithExpiry::from_fr_value(FrValue { value: Some(fr_value::Value::AtomicValue(str_msg("q"))), expiry_timestamp_micros: 0 });
    assert_eq!(st.as_string(), Ok(&"q".to_string()));
}

#[test]
fn wrapped_set_equality_is_inclusion() {
    let small = WrappedDashSet { wrapped_set: DashSet::new() };
    small.wrapped_set.insert(StoredAtomicValue::IntValue(1));
    let big = WrappedDashSet { wrapped_set: DashSet::new() };
    big.wrapped_set.insert(StoredAtomicValue::IntValue(1));
    big.wrapped_set.insert(StoredAtomicValue::IntValue(2));
    assert!(small == small);
    assert!(small == big);
    assert!(!(big == small));
    let copy = big.clone();
    assert_eq!(copy.wrapped_set.len(), 2);
    assert!(copy == big && big == copy);
}

#[test]
fn connection_manager_keeps_the_address() {
    let m = TonicConnectionManager::new("http://[::1]:50051".to_string());
    assert_eq!(m.addr(), "http://[::1]:50051");
}
