use cache_fr::commands::get::get_from_map_at;
use cache_fr::commands_proto::{self, AtomicFrValue, FrKey, FrResponse, FrValue, SetRequest};
use cache_fr::main_map_impl::{CacheFRMapImpl, Code};
use std::time::{self, UNIX_EPOCH};

#[test]
fn set_test_test_integration_expiry_on_keys() {
    let mut cache_fr_service = CacheFRMapImpl::new();

    let now_plus_a_second: u64 = (time::SystemTime::now()
        .duration_since(UNIX_EPOCH)
        .unwrap()
        .as_micros()
        + 1_000_000) as u64;

    let key = FrKey {
        key: Some(commands_proto::fr_key::Key::StringKey(
            "my best key for expiry testing".to_string(),
        )),
    };

    let value = FrValue {
        value: Some(commands_proto::fr_value::Value::AtomicValue(
            AtomicFrValue {
                value: Some(commands_proto::atomic_fr_value::Value::IntValue(100)),
            },
        )),
        expiry_timestamp_micros: now_plus_a_second,
    };

    let set_request = SetRequest {
        key: Some(key.clone()),
        value: Some(value.clone()),
        only_if_not_exists: false,
        return_value: false,
    };
    // add key that expires in 1 second
    let _ = cache_fr_service.set(set_request);

    // key should still exist
    assert_eq!(
        cache_fr_service.get(key.clone()).unwrap(),
        FrResponse {
            value: Some(value.clone()),
        }
    );

    // one second later, the key should be expired
    assert!(get_from_map_at(&mut cache_fr_service.map, key.clone(), now_plus_a_second).is_none());
    assert_eq!(
        cache_fr_service
            .get(key.clone())
            .expect_err("Key should be expired")
            .code,
        Code::NotFound
    );
    assert_eq!(0, cache_fr_service.len());
}
