use cache_fr::commands_proto::{self, AtomicFrValue, FrKey, FrValue, SetRequest};
use cache_fr::consts::NO_EXPIRY;
use cache_fr::main_map_impl::CacheFRMapImpl;
use cache_fr::value_structs::StoredFrValueWithExpiry;

#[test]
fn list_commands_test_test_integration_list_appending() {
    let mut cache_fr_service = CacheFRMapImpl::new();

    let key: FrKey = FrKey {
        key: Some(commands_proto::fr_key::Key::StringKey(
            "my best key".to_string(),
        )),
    };

    let initial_list_value: Vec<AtomicFrValue> = vec![];

    let value = FrValue {
        value: Some(commands_proto::fr_value::Value::ListValue(
            commands_proto::ListValue {
                values: initial_list_value.clone(),
            },
        )),
        expiry_timestamp_micros: NO_EXPIRY,
    };

    let set_request = SetRequest {
        key: Some(key.clone()),
        value: Some(value.clone()),
        only_if_not_exists: false,
        return_value: false,
    };

    // Set value and check that it is set
    let _ = cache_fr_service.set(set_request);
    assert_eq!(
        cache_fr_service.get(key.clone()).unwrap().value,
        Some(value.clone())
    );

    // Append to the list many times, in turns
    let num_of_threads = 10;
    for _ in 0..num_of_threads {
        for j in 0..num_of_threads {
            let list_append_command = commands_proto::ListCommand {
                key: Some(key.clone()),
                command: Some(commands_proto::list_command::Command::Append(
                    AtomicFrValue {
                        value: Some(commands_proto::atomic_fr_value::Value::IntValue(j)),
                    },
                )),
            };
            let _ = cache_fr_service.list_operation(list_append_command);
        }
    }

    let list_result = StoredFrValueWithExpiry::from_fr_value(
        cache_fr_service.get(key.clone()).unwrap().value.unwrap(),
    );
    let expected_len = num_of_threads * num_of_threads + initial_list_value.len() as i32;
    // Check that the list was appended correctly
    assert_eq!(list_result.as_list().unwrap().len() as i32, expected_len);
}
