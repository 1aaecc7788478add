use std::time::{self, UNIX_EPOCH};

use cache_fr::commands::get::get_from_map_at;
use cache_fr::commands_proto::{self, AtomicFrValue, FrKey, FrResponse, FrValue, SetRequest};
use cache_fr::consts::NO_EXPIRY;
use cache_fr::main_map_impl::{CacheFRMapImpl, Code};
use cache_fr::value_structs::StoredFrValueWithExpiry;

fn string_key(s: &str) -> FrKey {
    FrKey {
        key: Some(commands_proto::fr_key::Key::StringKey(s.to_string())),
    }
}

fn int_atomic(i: i32) -> AtomicFrValue {
    AtomicFrValue {
        value: Some(commands_proto::atomic_fr_value::Value::IntValue(i)),
    }
}

#[test]
fn integration_test_test_integration_expiry_on_keys() {
    let mut cache_fr_service = CacheFRMapImpl::new();

    let now_micros: u64 = time::SystemTime::now()
        .duration_since(UNIX_EPOCH)
        .unwrap()
        .as_micros() as u64;
    let now_plus_a_second: u64 = now_micros + 1_000_000;

    let key = string_key("my best key for expiry testing");
    let value = FrValue {
        value: Some(commands_proto::fr_value::Value::AtomicValue(AtomicFrValue {
            value: Some(commands_proto::atomic_fr_value::Value::StringValue(
                "has the best value".to_string(),
            )),
        })),
        expiry_timestamp_micros: now_plus_a_second,
    };
    let set_request = SetRequest {
        key: Some(key.clone()),
        value: Some(value.clone()),
        only_if_not_exists: false,
        return_value: false,
    };
    // add key that expires in 1 second
    let _ = cache_fr_service.set(set_request);
    // key should still exist
    assert_eq!(
        cache_fr_service.get(key.clone()).unwrap(),
        FrResponse {
            value: Some(value.clone())
        }
    );

    // a second later, the key has expired
    let later = get_from_map_at(&mut cache_fr_service.map, key.clone(), now_plus_a_second);
    assert!(later.is_none());
    assert_eq!(
        cache_fr_service
            .get(key.clone())
            .expect_err("Key should be expired")
            .code,
        Code::NotFound
    );
    assert_eq!(0, cache_fr_service.len());
}

#[test]
fn integration_test_test_integration_int_increment() {
    let mut cache_fr_service = CacheFRMapImpl::new();
    let key = string_key("my best key");

    let initial_int_value = 100;
    let value = FrValue {
        value: Some(commands_proto::fr_value::Value::AtomicValue(int_atomic(initial_int_value))),
        expiry_timestamp_micros: NO_EXPIRY,
    };
    let set_request = SetRequest {
        key: Some(key.clone()),
        value: Some(value.clone()),
        only_if_not_exists: false,
        return_value: false,
    };

    // Set value and check that it is set
    let _ = cache_fr_service.set(set_request);
    assert_eq!(
        cache_fr_service.get(key.clone()).unwrap().value,
        Some(value.clone())
    );

    // Increment the value many times
    let num_of_threads = 10;
    for _ in 0..num_of_threads {
        for j in 0..num_of_threads {
            let int_increment_command = commands_proto::IntCommand {
                key: Some(key.clone()),
                command: Some(commands_proto::int_command::Command::IncrementBy(j)),
            };
            let _ = cache_fr_service.int_operation(int_increment_command);
        }
    }

    let expected_sum =
        initial_int_value + num_of_threads * num_of_threads * (num_of_threads - 1) / 2;

    assert_eq!(
        cache_fr_service.get(key.clone()).unwrap().value,
        Some(FrValue {
            value: Some(commands_proto::fr_value::Value::AtomicValue(int_atomic(expected_sum))),
            expiry_timestamp_micros: NO_EXPIRY
        })
    );
}

#[test]
fn integration_test_test_integration_list_appending() {
    let mut cache_fr_service = CacheFRMapImpl::new();
    let key = string_key("my best key");

    let initial_list_value: Vec<AtomicFrValue> = vec![];
    let value = FrValue {
        value: Some(commands_proto::fr_value::Value::ListValue(
            commands_proto::ListValue {
                values: initial_list_value.clone(),
            },
        )),
        expiry_timestamp_micros: NO_EXPIRY,
    };
    let set_request = SetRequest {
        key: Some(key.clone()),
        value: Some(value.clone()),
        only_if_not_exists: false,
        return_value: false,
    };

    // Set value and check that it is set
    let _ = cache_fr_service.set(set_request);
    assert_eq!(
        cache_fr_service.get(key.clone()).unwrap().value,
        Some(value.clone())
    );

    // Append to the list many times
    let num_of_threads = 10;
    for _ in 0..num_of_threads {
        for j in 0..num_of_threads {
            let list_append_command = commands_proto::ListCommand {
                key: Some(key.clone()),
                command: Some(commands_proto::list_command::Command::Append(int_atomic(j))),
            };
            let _ = cache_fr_service.list_operation(list_append_command);
        }
    }

    let list_result = StoredFrValueWithExpiry::from_fr_value(
        cache_fr_service.get(key.clone()).unwrap().value.unwrap(),
    );
    let expected_len = num_of_threads * num_of_threads + initial_list_value.len() as i32;
    assert_eq!(list_result.as_list().unwrap().len() as i32, expected_len);
}
